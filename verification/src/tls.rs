//! Thread-local storage set-up for statically linked musl programs.
//!
//! musl puts the thread pointer past the end of the thread control block
//! (`TLS_ABOVE_TP`):
//!
//! ```text
//! [TLS data (.tdata + .tbss)] [gap] [struct pthread (TCB)] [dtv] <- TP
//! ```
//!
//! The layout of one TLS block is planned here: its size, where the TCB
//! and the DTV go, which words the kernel writes into them, and where the
//! `.tdata` template is copied from. Mapping the block and performing the
//! writes is the caller's.

use vstd::prelude::*;

use crate::align::{align_up, align_up_spec, is_align, lemma_page_align};

verus! {

/// Page size of the user address space.
pub const PAGE_SIZE: usize = 4096;

/// `x` rounded up with the mask of `m`: `(x + m - 1) & !(m - 1)`, which is
/// the next multiple of `m` when `m` is a power of two.
pub open spec fn mask_round(x: usize, m: usize) -> usize {
    ((x + m - 1) as usize) & !((m - 1) as usize)
}

fn mask_round_exec(x: usize, m: usize) -> (r: usize)
    requires
        m >= 1,
        x + m - 1 <= usize::MAX,
    ensures
        r == mask_round(x, m),
        r <= x + m - 1,
{
    let s = x + (m - 1);
    let k = m - 1;
    let r = s & !k;
    assert(s & !k <= s) by (bit_vector);
    r
}

/// The C runtime's thread control block layout.
pub trait TlsLayout: Sized {
    spec fn spec_pthread_size() -> usize;

    spec fn spec_gap_above_tp() -> usize;

    /// The layout's sizes are small: a TCB of at least one pointer.
    proof fn lemma_layout_bounds()
        ensures
            8 <= Self::spec_pthread_size() <= 4096,
            Self::spec_gap_above_tp() <= 4096,
    ;

    /// Size of `struct pthread` in bytes.
    fn pthread_size() -> (r: usize)
        ensures
            r == Self::spec_pthread_size(),
    ;

    /// Gap between the TLS data and the TCB.
    fn gap_above_tp() -> (r: usize)
        ensures
            r == Self::spec_gap_above_tp(),
    ;

    /// Entries of the dynamic thread vector.
    fn dtv_entry_count() -> (r: usize)
        ensures
            r == 2,
    {
        2
    }

    /// The page-aligned size of a block holding `tls_data_size` bytes of
    /// TLS data aligned to `max(tls_align, 16)`, the gap, the TCB and the
    /// DTV.
    fn total_alloc(tls_data_size: usize, tls_align: usize) -> (r: usize)
        requires
            tls_data_size + tls_align + 3 * 4096 + 4096 <= usize::MAX,
        ensures
            r == align_up_spec(
                mask_round(tls_data_size, if tls_align > 16 { tls_align } else { 16 }) + Self::spec_gap_above_tp()
                    + Self::spec_pthread_size() + 16,
                4096,
            ),
    {
        proof {
            Self::lemma_layout_bounds();
            lemma_page_align();
        }
        let m = if tls_align > 16 { tls_align } else { 16 };
        let tls_data_aligned = mask_round_exec(tls_data_size, m);
        let dtv_bytes = Self::dtv_entry_count() * 8;
        let needed = tls_data_aligned + Self::gap_above_tp() + Self::pthread_size() + dtv_bytes;
        align_up(needed, PAGE_SIZE)
    }

    /// The thread pointer: just past the TCB at `td_addr`.
    fn compute_tp(td_addr: usize) -> (r: usize)
        requires
            td_addr + Self::spec_pthread_size() <= usize::MAX,
        ensures
            r == td_addr + Self::spec_pthread_size(),
    {
        td_addr + Self::pthread_size()
    }

    /// The words to write so that musl finds its TCB: `self` at the TCB
    /// start, the DTV pointer in the last word of the TCB, a locale pointer
    /// at `0x98` pointing to `0x40` inside the TCB, and the DTV's
    /// generation (1) and TLS data pointer. Also returns the thread pointer.
    fn init_tcb(tls_base: usize, td_addr: usize, dtv_addr: usize) -> (r: (Vec<(usize, u64)>, usize))
        requires
            td_addr + 4096 <= usize::MAX,
            dtv_addr + 8 <= usize::MAX,
        ensures
            r.0@ == seq![
                (td_addr, td_addr as u64),
                ((td_addr + Self::spec_pthread_size() - 8) as usize, dtv_addr as u64),
                ((td_addr + 0x98) as usize, (td_addr + 0x40) as u64),
                (dtv_addr, 1u64),
                ((dtv_addr + 8) as usize, tls_base as u64),
            ],
            r.1 == td_addr + Self::spec_pthread_size(),
    {
        proof {
            Self::lemma_layout_bounds();
        }
        let mut w: Vec<(usize, u64)> = Vec::new();
        w.push((td_addr, td_addr as u64));
        w.push((td_addr + Self::pthread_size() - 8, dtv_addr as u64));
        let locale_addr = td_addr + 0x40;
        w.push((td_addr + 0x98, locale_addr as u64));
        w.push((dtv_addr, 1));
        w.push((dtv_addr + 8, tls_base as u64));
        let tp = Self::compute_tp(td_addr);
        assert(w@ =~= seq![
            (td_addr, td_addr as u64),
            ((td_addr + Self::spec_pthread_size() - 8) as usize, dtv_addr as u64),
            ((td_addr + 0x98) as usize, (td_addr + 0x40) as u64),
            (dtv_addr, 1u64),
            ((dtv_addr + 8) as usize, tls_base as u64),
        ]);
        (w, tp)
    }
}

/// musl on aarch64: a 0xc8-byte `struct pthread` and a 16-byte gap.
pub struct TlsLayoutAarch64;

impl TlsLayout for TlsLayoutAarch64 {
    open spec fn spec_pthread_size() -> usize {
        0xc8
    }

    open spec fn spec_gap_above_tp() -> usize {
        16
    }

    proof fn lemma_layout_bounds() {
    }

    fn pthread_size() -> (r: usize) {
        0xc8
    }

    fn gap_above_tp() -> (r: usize) {
        16
    }
}

/// musl on riscv64: a 0xc0-byte `struct pthread` and a 16-byte gap.
pub struct TlsLayoutRiscv64;

impl TlsLayout for TlsLayoutRiscv64 {
    open spec fn spec_pthread_size() -> usize {
        0xc0
    }

    open spec fn spec_gap_above_tp() -> usize {
        16
    }

    proof fn lemma_layout_bounds() {
    }

    fn pthread_size() -> (r: usize) {
        0xc0
    }

    fn gap_above_tp() -> (r: usize) {
        16
    }
}

/// musl on x86-64: a 0xc8-byte `struct pthread` and a 16-byte gap.
pub struct TlsLayoutX8664;

impl TlsLayout for TlsLayoutX8664 {
    open spec fn spec_pthread_size() -> usize {
        0xc8
    }

    open spec fn spec_gap_above_tp() -> usize {
        16
    }

    proof fn lemma_layout_bounds() {
    }

    fn pthread_size() -> (r: usize) {
        0xc8
    }

    fn gap_above_tp() -> (r: usize) {
        16
    }
}

/// The `PT_TLS` program header fields the set-up reads.
#[derive(Clone, Copy, Debug, PartialEq, Eq, Structural)]
pub struct TlsPhdr {
    pub memsz: usize,
    pub filesz: usize,
    pub align: usize,
    pub vaddr: usize,
}

/// The TLS template to lay out: that of a `PT_TLS` header with a non-empty
/// image, its alignment raised to at least 16; otherwise nothing, aligned
/// to 16.
pub open spec fn tls_params_spec(phdr: Option<TlsPhdr>) -> TlsPhdr {
    match phdr {
        Some(p) => if p.memsz > 0 {
            TlsPhdr { align: if p.align > 16 { p.align } else { 16 }, ..p }
        } else {
            TlsPhdr { memsz: 0, filesz: 0, align: 16, vaddr: 0 }
        },
        None => TlsPhdr { memsz: 0, filesz: 0, align: 16, vaddr: 0 },
    }
}

pub fn tls_params(phdr: Option<TlsPhdr>) -> (p: TlsPhdr)
    ensures
        p == tls_params_spec(phdr),
{
    match phdr {
        Some(p) if p.memsz > 0 => TlsPhdr {
            memsz: p.memsz,
            filesz: p.filesz,
            align: if p.align > 16 { p.align } else { 16 },
            vaddr: p.vaddr,
        },
        _ => TlsPhdr { memsz: 0, filesz: 0, align: 16, vaddr: 0 },
    }
}

/// The size of the TLS block to map: the full layout when there is TLS
/// data, else a page-aligned block for just the TCB, gap and DTV.
pub fn tls_alloc_size<L: TlsLayout>(params: &TlsPhdr) -> (total: usize)
    requires
        params.memsz + params.align + 4 * 4096 <= usize::MAX,
    ensures
        params.memsz > 0 ==> total == align_up_spec(
            mask_round(params.memsz, if params.align > 16 { params.align } else { 16 })
                + L::spec_gap_above_tp() + L::spec_pthread_size() + 16,
            4096,
        ),
        params.memsz == 0 ==> total == align_up_spec(
            L::spec_pthread_size() + L::spec_gap_above_tp() + 16,
            4096,
        ),
{
    proof {
        L::lemma_layout_bounds();
        lemma_page_align();
    }
    if params.memsz > 0 {
        L::total_alloc(params.memsz, params.align)
    } else {
        let min_tcb = L::pthread_size() + L::gap_above_tp() + L::dtv_entry_count() * 8;
        align_up(min_tcb, PAGE_SIZE)
    }
}

/// The plan for one TLS block mapped at `tls_base`.
pub struct TlsSetup {
    /// The thread pointer.
    pub tp: usize,
    /// Start of the TCB.
    pub td_addr: usize,
    /// Start of the DTV.
    pub dtv_addr: usize,
    /// The words to write: `(address, value)`.
    pub writes: Vec<(usize, u64)>,
    /// Where to copy the `filesz` bytes of `.tdata` from, if there are any.
    pub template: Option<usize>,
}

/// Where the `.tdata` template is read from: relocated by a non-negative
/// load bias, at its link-time address otherwise; nothing when the
/// template is empty.
pub open spec fn template_spec(params: TlsPhdr, load_bias: i64) -> Option<usize> {
    if params.filesz == 0 {
        None
    } else if load_bias >= 0 {
        Some((params.vaddr as i64 + load_bias) as usize)
    } else {
        Some(params.vaddr)
    }
}

/// Lays out the TLS block mapped at `tls_base`: the TLS data (rounded up
/// to its alignment), the gap, then the TCB and the DTV.
pub fn setup_tls<L: TlsLayout>(params: &TlsPhdr, load_bias: i64, tls_base: usize) -> (s: TlsSetup)
    requires
        params.align >= 1,
        tls_base + params.memsz + params.align + 3 * 4096 <= usize::MAX,
        params.filesz > 0 && load_bias >= 0 ==> (params.vaddr as i64) + load_bias <= i64::MAX,
    ensures
        s.td_addr == tls_base + (if params.memsz > 0 {
            mask_round(params.memsz, params.align) as int
        } else {
            0
        }) + L::spec_gap_above_tp(),
        s.dtv_addr == s.td_addr + L::spec_pthread_size(),
        s.tp == s.td_addr + L::spec_pthread_size(),
        s.writes@ == seq![
            (s.td_addr, s.td_addr as u64),
            ((s.td_addr + L::spec_pthread_size() - 8) as usize, s.dtv_addr as u64),
            ((s.td_addr + 0x98) as usize, (s.td_addr + 0x40) as u64),
            (s.dtv_addr, 1u64),
            ((s.dtv_addr + 8) as usize, tls_base as u64),
        ],
        s.template == template_spec(*params, load_bias),
{
    proof {
        L::lemma_layout_bounds();
    }
    let tls_data_aligned = if params.memsz > 0 {
        mask_round_exec(params.memsz, params.align)
    } else {
        0
    };
    let td_addr = tls_base + tls_data_aligned + L::gap_above_tp();
    let dtv_addr = td_addr + L::pthread_size();
    let (writes, tp) = L::init_tcb(tls_base, td_addr, dtv_addr);
    let template = if params.filesz > 0 && load_bias >= 0 {
        Some((params.vaddr as i64 + load_bias) as usize)
    } else if params.filesz > 0 {
        Some(params.vaddr)
    } else {
        None
    };
    TlsSetup { tp, td_addr, dtv_addr, writes, template }
}

/// The block that `tls_alloc_size` sizes holds everything `setup_tls`
/// places in it: the TLS data, the gap, the TCB and both DTV words lie
/// within `[tls_base, tls_base + total)`, for a template from
/// `tls_params`.
pub proof fn lemma_tls_block_fits<L: TlsLayout>(params: TlsPhdr, tls_base: int, total: int, td_addr: int, dtv_addr: int)
    requires
        params.align >= 16,
        params.memsz + params.align + 4 * 4096 <= usize::MAX,
        params.memsz > 0 ==> total == align_up_spec(
            mask_round(params.memsz, if params.align > 16 { params.align } else { 16 })
                + L::spec_gap_above_tp() + L::spec_pthread_size() + 16,
            4096,
        ),
        params.memsz == 0 ==> total == align_up_spec(
            L::spec_pthread_size() + L::spec_gap_above_tp() + 16,
            4096,
        ),
        td_addr == tls_base + (if params.memsz > 0 {
            mask_round(params.memsz, params.align) as int
        } else {
            0
        }) + L::spec_gap_above_tp(),
        dtv_addr == td_addr + L::spec_pthread_size(),
    ensures
        tls_base <= td_addr,
        dtv_addr + 16 <= tls_base + total,
{
    L::lemma_layout_bounds();
    let m = if params.align > 16 { params.align } else { 16 };
    let x: int = if params.memsz > 0 {
        mask_round(params.memsz, m) + L::spec_gap_above_tp() + L::spec_pthread_size() + 16
    } else {
        L::spec_pthread_size() + L::spec_gap_above_tp() + 16
    };
    crate::align::lemma_align_bounds(x, 4096);
}

} // verus!
