//! Planning an ELF program's mapping and its load-time relocations.
//!
//! The placement of a position-independent program, the page-level mapping
//! of each loadable segment, and the `RELA` relocations applied at load time
//! on aarch64 are decided here from the bytes and numbers of the ELF file;
//! mapping memory, reading the file and writing the patched words are the
//! caller's.

use vstd::prelude::*;

use crate::align::{align_down, align_down_spec, align_up, align_up_spec, is_align, lemma_align_bounds, lemma_page_align};
use crate::errno::Errno;
use crate::wire::{read_u16_le, read_u32_le, read_u64_le, u16_at, u32_at, u64_at};

verus! {

/// Page size of the user address space.
pub const PAGE_SIZE: usize = 4096;

/// Section type of a relocation table with addends.
pub const SHT_RELA: u32 = 4;

pub const R_AARCH64_ABS64: u32 = 257;
pub const R_AARCH64_GLOB_DAT: u32 = 1025;
pub const R_AARCH64_RELATIVE: u32 = 1027;

/// Bytes of a `RELA` entry.
pub const RELA_ENTRY_SIZE: usize = 24;

/// Where a loaded program starts running and where its stack and thread
/// pointer are.
pub struct ElfLoadInfo {
    /// The relocated entry point.
    pub entry_point: usize,
    /// The top address of the user stack.
    pub user_stack_top: usize,
    /// The thread pointer, if a TLS block was set up.
    pub tls_pointer: Option<usize>,
}

/// The section header table's place, entry size and entry count.
#[derive(Clone, Copy, Debug, PartialEq, Eq, Structural)]
pub struct SectionTable {
    pub shoff: u64,
    pub shentsize: usize,
    pub shnum: usize,
}

/// The section header table an ELF header describes: none when fewer than
/// 64 header bytes could be read, or when its offset, entry count or entry
/// size is zero.
pub open spec fn section_table_spec(ehdr: Seq<u8>, read: usize) -> Option<SectionTable> {
    if read < 64 {
        None
    } else {
        let shoff = u64_at(ehdr, 40);
        let shentsize = u16_at(ehdr, 58);
        let shnum = u16_at(ehdr, 60);
        if shoff == 0 || shnum == 0 || shentsize == 0 {
            None
        } else {
            Some(SectionTable { shoff, shentsize: shentsize as usize, shnum: shnum as usize })
        }
    }
}

pub fn section_table(ehdr: &[u8], read: usize) -> (t: Option<SectionTable>)
    requires
        ehdr@.len() >= 64,
    ensures
        t == section_table_spec(ehdr@, read),
{
    if read < 64 {
        return None;
    }
    let shoff = read_u64_le(ehdr, 40);
    let shentsize = read_u16_le(ehdr, 58);
    let shnum = read_u16_le(ehdr, 60);
    if shoff == 0 || shnum == 0 || shentsize == 0 {
        return None;
    }
    Some(SectionTable { shoff, shentsize: shentsize as usize, shnum: shnum as usize })
}

/// Section header `i` can be read: its type, and its offset and size when
/// it is a `RELA` section.
pub open spec fn shdr_readable(shdrs: Seq<u8>, ent: int, i: int) -> bool {
    &&& i * ent + 8 <= shdrs.len()
    &&& u32_at(shdrs, i * ent + 4) == SHT_RELA ==> i * ent + 40 <= shdrs.len()
}

/// The `(offset, size)` of each `RELA` section among the first `n`
/// section headers, in order.
pub open spec fn rela_sections_spec(shdrs: Seq<u8>, ent: int, n: int) -> Seq<(u64, u64)>
    decreases n,
{
    if n <= 0 {
        Seq::empty()
    } else {
        let prev = rela_sections_spec(shdrs, ent, n - 1);
        let off = (n - 1) * ent;
        if u32_at(shdrs, off + 4) == SHT_RELA {
            prev.push((u64_at(shdrs, off + 24), u64_at(shdrs, off + 32)))
        } else {
            prev
        }
    }
}

proof fn lemma_mul_step(i: int, ent: int)
    requires
        i >= 0,
        ent >= 0,
    ensures
        (i + 1) * ent == i * ent + ent,
        i * ent >= 0,
{
    assert((i + 1) * ent == i * ent + ent) by (nonlinear_arith);
    assert(i * ent >= 0) by (nonlinear_arith)
        requires
            i >= 0,
            ent >= 0,
    ;
}

/// The `RELA` sections of a section header table.
pub fn rela_sections(shdrs: &[u8], shentsize: usize, shnum: usize) -> (r: Vec<(u64, u64)>)
    requires
        forall|i: int| 0 <= i < shnum ==> #[trigger] shdr_readable(shdrs@, shentsize as int, i),
    ensures
        r@ == rela_sections_spec(shdrs@, shentsize as int, shnum as int),
{
    let mut r: Vec<(u64, u64)> = Vec::new();
    let mut i: usize = 0;
    let mut off: usize = 0;
    let len = shdrs.len();
    while i < shnum
        invariant
            len == shdrs@.len(),
            0 <= i <= shnum,
            i < shnum ==> off == i * shentsize,
            forall|k: int| 0 <= k < shnum ==> #[trigger] shdr_readable(shdrs@, shentsize as int, k),
            r@ == rela_sections_spec(shdrs@, shentsize as int, i as int),
        decreases shnum - i,
    {
        proof {
            assert(shdr_readable(shdrs@, shentsize as int, i as int));
            lemma_mul_step(i as int, shentsize as int);
        }
        let sh_type = read_u32_le(shdrs, off + 4);
        if sh_type == SHT_RELA {
            let sh_offset = read_u64_le(shdrs, off + 24);
            let sh_size = read_u64_le(shdrs, off + 32);
            r.push((sh_offset, sh_size));
        }
        i = i + 1;
        if i < shnum {
            proof {
                assert(shdr_readable(shdrs@, shentsize as int, i as int));
            }
            off = off + shentsize;
        }
    }
    r
}

/// The value a relocation of type `r_type` stores: the addend moved by the
/// load bias, for `RELATIVE`, `GLOB_DAT` and `ABS64`; other types are left
/// to the program.
pub open spec fn relocation_value_spec(r_type: u32, addend: u64, bias: u64) -> Option<u64> {
    if r_type == R_AARCH64_RELATIVE || r_type == R_AARCH64_GLOB_DAT || r_type == R_AARCH64_ABS64 {
        Some(((addend + bias) % 0x1_0000_0000_0000_0000) as u64)
    } else {
        None
    }
}

pub fn relocation_value(r_type: u32, addend: u64, bias: u64) -> (v: Option<u64>)
    ensures
        v == relocation_value_spec(r_type, addend, bias),
{
    if r_type == R_AARCH64_RELATIVE || r_type == R_AARCH64_GLOB_DAT || r_type == R_AARCH64_ABS64 {
        Some(addend.wrapping_add(bias))
    } else {
        None
    }
}

/// One word to patch: at `addr` (the entry's offset moved by the load
/// bias), the value `value`.
#[derive(Clone, Copy, Debug, PartialEq, Eq, Structural)]
pub struct Relocation {
    pub addr: u64,
    pub value: u64,
}

/// The patches of the first `n` entries of a `RELA` table.
pub open spec fn relocations_spec(rela: Seq<u8>, bias: u64, n: int) -> Seq<Relocation>
    decreases n,
{
    if n <= 0 {
        Seq::empty()
    } else {
        let prev = relocations_spec(rela, bias, n - 1);
        let eo = (n - 1) * 24;
        let r_offset = u64_at(rela, eo);
        let r_info = u64_at(rela, eo + 8);
        let r_addend = u64_at(rela, eo + 16);
        match relocation_value_spec((r_info & 0xFFFF_FFFF) as u32, r_addend, bias) {
            Some(value) => prev.push(
                Relocation { addr: ((r_offset + bias) % 0x1_0000_0000_0000_0000) as u64, value },
            ),
            None => prev,
        }
    }
}

/// The patches a `RELA` table asks for, in table order, for a program
/// loaded with bias `bias`. Only whole entries count.
pub fn relocations(rela: &[u8], bias: u64) -> (r: Vec<Relocation>)
    ensures
        r@ == relocations_spec(rela@, bias, rela@.len() as int / 24),
{
    let len = rela.len();
    let n = len / RELA_ENTRY_SIZE;
    let mut r: Vec<Relocation> = Vec::new();
    let mut j: usize = 0;
    while j < n
        invariant
            len == rela@.len(),
            0 <= j <= n,
            n == rela@.len() / 24,
            r@ == relocations_spec(rela@, bias, j as int),
        decreases n - j,
    {
        assert(j * 24 + 24 <= rela@.len()) by (nonlinear_arith)
            requires
                j < n,
                n == rela@.len() / 24,
        ;
        let eo = j * RELA_ENTRY_SIZE;
        let r_offset = read_u64_le(rela, eo);
        let r_info = read_u64_le(rela, eo + 8);
        let r_addend = read_u64_le(rela, eo + 16);
        let low = r_info & 0xFFFF_FFFF;
        assert(low <= 0xFFFF_FFFF) by (bit_vector)
            requires
                low == r_info & 0xFFFF_FFFF,
        ;
        let r_type = low as u32;
        match relocation_value(r_type, r_addend, bias) {
            Some(value) => {
                r.push(Relocation { addr: r_offset.wrapping_add(bias), value });
            },
            None => {},
        }
        j = j + 1;
    }
    r
}

/// The `len` bytes a read at `off` of `file` leaves in a zeroed buffer:
/// the file's bytes up to its end, zeros after.
pub open spec fn read_spec(file: Seq<u8>, off: int, len: int) -> Seq<u8> {
    Seq::new(len as nat, |i: int| if off + i < file.len() { file[off + i] } else { 0u8 })
}

/// Reads `len` bytes at `off` of `file` into a zeroed buffer.
pub fn read_file_at(file: &[u8], off: usize, len: usize) -> (b: Vec<u8>)
    ensures
        b@ == read_spec(file@, off as int, len as int),
{
    let n = file.len();
    let mut b: Vec<u8> = Vec::new();
    let mut i: usize = 0;
    while i < len
        invariant
            0 <= i <= len,
            n == file@.len(),
            b@ == read_spec(file@, off as int, len as int).subrange(0, i as int),
        decreases len - i,
    {
        let v = if off < n && i < n - off {
            file[off + i]
        } else {
            0
        };
        b.push(v);
        i = i + 1;
        proof {
            assert(b@ =~= read_spec(file@, off as int, len as int).subrange(0, i as int));
        }
    }
    proof {
        assert(b@ =~= read_spec(file@, off as int, len as int));
    }
    b
}

/// The patches of the `RELA` sections `secs[..n]` of `file`, in order.
pub open spec fn section_relocs(file: Seq<u8>, secs: Seq<(u64, u64)>, bias: u64, n: int) -> Seq<Relocation>
    decreases n,
{
    if n <= 0 {
        Seq::empty()
    } else {
        let (off, size) = secs[n - 1];
        section_relocs(file, secs, bias, n - 1) + relocations_spec(
            read_spec(file, off as int, size as int),
            bias,
            size as int / 24,
        )
    }
}

/// The section table an ELF file's first 64 bytes describe, read as the
/// loader reads them.
pub open spec fn file_section_table(file: Seq<u8>) -> Option<SectionTable> {
    let read = if file.len() < 64 { file.len() as usize } else { 64usize };
    section_table_spec(read_spec(file, 0, 64), read)
}

/// The bytes of the section header table `t` of `file`.
pub open spec fn shdr_bytes(file: Seq<u8>, t: SectionTable) -> Seq<u8> {
    read_spec(file, t.shoff as int, t.shnum * t.shentsize)
}

/// The `(offset, size)` of each `RELA` section of the table `t` of `file`.
pub open spec fn file_rela_sections(file: Seq<u8>, t: SectionTable) -> Seq<(u64, u64)> {
    rela_sections_spec(shdr_bytes(file, t), t.shentsize as int, t.shnum as int)
}

/// The patches an ELF file asks for when loaded with bias `bias`: those
/// of its `RELATIVE`, `GLOB_DAT` and `ABS64` relocations in every `RELA`
/// section, in section and table order. A file without a section table
/// (or with a short header) needs none.
pub open spec fn apply_relocations_spec(file: Seq<u8>, bias: u64) -> Seq<Relocation> {
    match file_section_table(file) {
        None => Seq::empty(),
        Some(t) => {
            let secs = file_rela_sections(file, t);
            section_relocs(file, secs, bias, secs.len() as int)
        },
    }
}

/// The section header table can be read as the loader reads it: each
/// header holds its type (and, for a `RELA` section, its offset and size)
/// within the table, and every offset and size fits a `usize`.
pub open spec fn relocatable(file: Seq<u8>) -> bool {
    match file_section_table(file) {
        None => true,
        Some(t) => {
            &&& t.shoff <= usize::MAX
            &&& t.shnum * t.shentsize <= usize::MAX
            &&& forall|i: int|
                0 <= i < t.shnum ==> #[trigger] shdr_readable(shdr_bytes(file, t), t.shentsize as int, i)
            &&& forall|k: int|
                0 <= k < file_rela_sections(file, t).len() ==> (#[trigger] file_rela_sections(file, t)[k]).0
                    <= usize::MAX && file_rela_sections(file, t)[k].1 <= usize::MAX
        },
    }
}

/// The patches to apply to a program loaded from `file` with bias `bias`.
pub fn apply_relocations(file: &[u8], bias: u64) -> (r: Vec<Relocation>)
    requires
        relocatable(file@),
    ensures
        r@ == apply_relocations_spec(file@, bias),
{
    let read = if file.len() < 64 {
        file.len()
    } else {
        64
    };
    let ehdr = read_file_at(file, 0, 64);
    let t = match section_table(ehdr.as_slice(), read) {
        None => {
            return Vec::new();
        },
        Some(t) => t,
    };
    assert(file_section_table(file@) == Some(t));
    let ghost shdrs_v = shdr_bytes(file@, t);
    let total = t.shnum * t.shentsize;
    let shdrs = read_file_at(file, t.shoff as usize, total);
    assert(shdrs@ == shdrs_v);
    let secs = rela_sections(shdrs.as_slice(), t.shentsize, t.shnum);
    let ghost secs_v = secs@;
    assert(secs_v == file_rela_sections(file@, t));
    let mut out: Vec<Relocation> = Vec::new();
    let mut k: usize = 0;
    while k < secs.len()
        invariant
            0 <= k <= secs@.len(),
            secs@ == secs_v,
            forall|j: int| 0 <= j < secs_v.len() ==> (#[trigger] secs_v[j]).0 <= usize::MAX && secs_v[j].1 <= usize::MAX,
            out@ == section_relocs(file@, secs_v, bias, k as int),
        decreases secs@.len() - k,
    {
        let (off, size) = secs[k];
        proof {
            assert(secs_v[k as int].0 <= usize::MAX && secs_v[k as int].1 <= usize::MAX);
        }
        let rela = read_file_at(file, off as usize, size as usize);
        let rs = relocations(rela.as_slice(), bias);
        let mut i: usize = 0;
        let ghost base = out@;
        while i < rs.len()
            invariant
                0 <= i <= rs@.len(),
                out@ == base + rs@.subrange(0, i as int),
            decreases rs@.len() - i,
        {
            out.push(rs[i]);
            i = i + 1;
            proof {
                assert(out@ =~= base + rs@.subrange(0, i as int));
            }
        }
        proof {
            assert(rs@.subrange(0, rs@.len() as int) =~= rs@);
        }
        k = k + 1;
    }
    out
}

/// How one loadable segment is mapped: the whole page range it covers,
/// the file pages mapped from the file, the zeroed tail of the last file
/// page, and the anonymous pages after the file pages.
#[derive(Clone, Copy, Debug, PartialEq, Eq, Structural)]
pub struct SegmentPlan {
    /// Bytes of the page range covering the segment's memory image.
    pub total_map_size: usize,
    /// File offset of the first mapped file page.
    pub segment_offset: usize,
    /// Bytes of file pages mapped.
    pub segment_size: usize,
    /// Page-aligned address the mapping starts at.
    pub map_offset: usize,
    /// Offset from `map_offset` of the first byte after the file data.
    pub zero_offset: usize,
    /// Bytes to zero after the file data, up to the end of the file pages.
    pub zero_size: usize,
    /// Bytes of anonymous memory after the file pages.
    pub anon_size: usize,
}

/// Maps a segment whose memory image is `[virt_start, virt_end)` and file
/// image is `[file_start, file_end)`, placed at `map_at`.
pub fn plan_segment(virt_start: usize, virt_end: usize, file_start: usize, file_end: usize, map_at: usize) -> (p: SegmentPlan)
    requires
        virt_start <= virt_end,
        file_start <= file_end,
        virt_end + PAGE_SIZE <= usize::MAX,
        file_end + PAGE_SIZE <= usize::MAX,
        align_up_spec(file_end as int, 4096) - align_down_spec(file_start as int, 4096)
            <= align_up_spec(virt_end as int, 4096) - align_down_spec(virt_start as int, 4096),
    ensures
        p.total_map_size == align_up_spec(virt_end as int, 4096) - align_down_spec(virt_start as int, 4096),
        p.segment_offset == align_down_spec(file_start as int, 4096),
        p.segment_size == align_up_spec(file_end as int, 4096) - align_down_spec(file_start as int, 4096),
        p.map_offset == align_down_spec(map_at as int, 4096),
        p.zero_offset == file_end - p.segment_offset,
        p.zero_size == p.segment_size - p.zero_offset,
        p.anon_size == p.total_map_size - p.segment_size,
{
    proof {
        lemma_page_align();
        lemma_align_bounds(virt_start as int, 4096);
        lemma_align_bounds(virt_end as int, 4096);
        lemma_align_bounds(file_start as int, 4096);
        lemma_align_bounds(file_end as int, 4096);
        vstd::arithmetic::div_mod::lemma_div_is_ordered(virt_start as int, virt_end as int, 4096);
        vstd::arithmetic::div_mod::lemma_div_is_ordered(file_start as int, file_end as int, 4096);
    }
    let vmap_start = align_down(virt_start, PAGE_SIZE);
    let vmap_end = align_up(virt_end, PAGE_SIZE);
    assert(vmap_start <= vmap_end) by (nonlinear_arith)
        requires
            vmap_start == (virt_start as int / 4096) * 4096,
            vmap_start <= virt_start,
            virt_start <= virt_end,
            virt_end <= vmap_end,
    ;
    let total_map_size = vmap_end - vmap_start;
    let start = align_down(file_start, PAGE_SIZE);
    let end = align_up(file_end, PAGE_SIZE);
    let segment_size = end - start;
    let map_offset = align_down(map_at, PAGE_SIZE);
    let zero_offset = file_end - start;
    let zero_size = segment_size - zero_offset;
    SegmentPlan {
        total_map_size,
        segment_offset: start,
        segment_size,
        map_offset,
        zero_offset,
        zero_size,
        anon_size: total_map_size - segment_size,
    }
}

/// The base for position-independent programs with an interpreter, and
/// the heap base of those without: two thirds of the user address space.
pub open spec fn pie_base_spec(cap_addr: usize) -> int {
    (cap_addr / 3) * 2
}

/// Where a position-independent program goes.
#[derive(Clone, Copy, Debug, PartialEq, Eq, Structural)]
pub struct SharedMapPlan {
    /// The program's address bounds rounded out to its alignment.
    pub aligned_start: usize,
    pub aligned_end: usize,
    pub map_size: usize,
    /// The fixed address to map at (programs with an interpreter); otherwise
    /// any address aligned to the program's alignment.
    pub fixed_offset: Option<usize>,
    /// The heap base (programs without an interpreter).
    pub heap_base: Option<usize>,
}

/// Places a position-independent program with address bounds
/// `[va_start, va_end)` and alignment `align` in a user address space
/// `[lowest_addr, cap_addr)`. A program with an interpreter goes to the
/// aligned PIE base moved up by `padding_pages` random pages; it fails with
/// `EPERM` below `lowest_addr` and with `ENOMEM` when it would not fit
/// under `cap_addr`.
pub fn plan_shared_mapping(
    va_start: usize,
    va_end: usize,
    align: usize,
    has_interpreter: bool,
    padding_pages: u8,
    cap_addr: usize,
    lowest_addr: usize,
) -> (r: Result<SharedMapPlan, Errno>)
    requires
        is_align(align),
        va_start <= va_end,
        va_end <= cap_addr,
        cap_addr * 2 <= usize::MAX,
        align <= cap_addr,
        pie_base_spec(cap_addr) + 255 * 4096 <= cap_addr,
    ensures
        match r {
            Ok(p) => {
                &&& p.aligned_start == align_down_spec(va_start as int, align as int)
                &&& p.aligned_end == align_up_spec(va_end as int, align as int)
                &&& p.map_size == p.aligned_end - p.aligned_start
                &&& has_interpreter ==> p.heap_base is None && p.fixed_offset == Some(
                    align_down_spec(pie_base_spec(cap_addr) + padding_pages * 4096, align as int) as usize,
                ) && lowest_addr <= p.fixed_offset->0 && p.map_size <= cap_addr - p.fixed_offset->0
                &&& !has_interpreter ==> p.fixed_offset is None && p.heap_base == Some(
                    pie_base_spec(cap_addr) as usize,
                )
            },
            Err(e) => {
                let offset = align_down_spec(pie_base_spec(cap_addr) + padding_pages * 4096, align as int);
                &&& has_interpreter
                &&& e == Errno::EPERM <==> offset < lowest_addr
                &&& e == Errno::ENOMEM <==> (offset >= lowest_addr && cap_addr - offset < align_up_spec(va_end as int, align as int) - align_down_spec(va_start as int, align as int))
                &&& e == Errno::EPERM || e == Errno::ENOMEM
            },
        },
{
    proof {
        lemma_align_bounds(va_start as int, align as int);
        lemma_align_bounds(va_end as int, align as int);
        vstd::arithmetic::div_mod::lemma_div_is_ordered(va_start as int, va_end as int, align as int);
    }
    let aligned_start = align_down(va_start, align);
    let aligned_end = align_up(va_end, align);
    assert(aligned_start <= aligned_end) by (nonlinear_arith)
        requires
            aligned_start <= va_start,
            va_start <= va_end,
            va_end <= aligned_end,
    ;
    let map_size = aligned_end - aligned_start;
    let pie_base = cap_addr / 3 * 2;
    if has_interpreter {
        let padding = padding_pages as usize * PAGE_SIZE;
        proof {
            lemma_align_bounds((pie_base + padding) as int, align as int);
        }
        let offset = align_down(pie_base + padding, align);
        if offset < lowest_addr {
            return Err(Errno::EPERM);
        }
        if cap_addr - offset < map_size {
            return Err(Errno::ENOMEM);
        }
        Ok(SharedMapPlan { aligned_start, aligned_end, map_size, fixed_offset: Some(offset), heap_base: None })
    } else {
        Ok(SharedMapPlan { aligned_start, aligned_end, map_size, fixed_offset: None, heap_base: Some(pie_base) })
    }
}

/// The tight range of a position-independent program mapped at
/// `map_start`: the mapping less the alignment padding at both ends.
pub fn shared_map_range(plan: &SharedMapPlan, va_start: usize, va_end: usize, map_start: usize) -> (r: (usize, usize))
    requires
        plan.aligned_start <= va_start <= va_end <= plan.aligned_end,
        plan.map_size == plan.aligned_end - plan.aligned_start,
        map_start + plan.map_size <= usize::MAX,
    ensures
        r.0 == map_start + (va_start - plan.aligned_start),
        r.1 == map_start + plan.map_size - (plan.aligned_end - va_end),
{
    let start_offset = va_start - plan.aligned_start;
    let end_offset = plan.aligned_end - va_end;
    (map_start + start_offset, map_start + plan.map_size - end_offset)
}

/// A program that is not position-independent maps as linked: its bounds
/// rounded out to pages, refused with `EPERM` below `lowest_addr`.
pub fn plan_fixed_mapping(va_start: usize, va_end: usize, lowest_addr: usize) -> (r: Result<(usize, usize), Errno>)
    requires
        va_start <= va_end,
        va_end + PAGE_SIZE <= usize::MAX,
    ensures
        va_start < lowest_addr ==> r == Err::<(usize, usize), Errno>(Errno::EPERM),
        va_start >= lowest_addr ==> r == Ok::<(usize, usize), Errno>(
            (
                align_down_spec(va_start as int, 4096) as usize,
                align_up_spec(va_end as int, 4096) as usize,
            ),
        ),
{
    if va_start < lowest_addr {
        return Err(Errno::EPERM);
    }
    proof {
        lemma_page_align();
    }
    Ok((align_down(va_start, PAGE_SIZE), align_up(va_end, PAGE_SIZE)))
}

/// The smallest range covering the first `n` ranges.
pub open spec fn hull_spec(ranges: Seq<(usize, usize)>, n: int) -> (int, int)
    decreases n,
{
    if n <= 0 {
        (0, 0)
    } else if n == 1 {
        (ranges[0].0 as int, ranges[0].1 as int)
    } else {
        let (s, e) = hull_spec(ranges, n - 1);
        (
            if ranges[n - 1].0 < s { ranges[n - 1].0 as int } else { s },
            if ranges[n - 1].1 > e { ranges[n - 1].1 as int } else { e },
        )
    }
}

/// The code range of a program: the smallest range covering its
/// executable segments (relocated `[start, end)` each); empty at 0 when it
/// has none.
pub fn code_range(exec_segments: &[(usize, usize)]) -> (r: (usize, usize))
    ensures
        r.0 == hull_spec(exec_segments@, exec_segments@.len() as int).0,
        r.1 == hull_spec(exec_segments@, exec_segments@.len() as int).1,
{
    if exec_segments.len() == 0 {
        return (0, 0);
    }
    let mut s = exec_segments[0].0;
    let mut e = exec_segments[0].1;
    let mut i: usize = 1;
    while i < exec_segments.len()
        invariant
            1 <= i <= exec_segments@.len(),
            s == hull_spec(exec_segments@, i as int).0,
            e == hull_spec(exec_segments@, i as int).1,
        decreases exec_segments@.len() - i,
    {
        let (a, b) = exec_segments[i];
        if a < s {
            s = a;
        }
        if b > e {
            e = b;
        }
        i = i + 1;
    }
    (s, e)
}

/// A range of link-time addresses `[original_start, original_end)` and
/// the address its start is mapped at.
#[derive(Clone, Copy, Debug, PartialEq, Eq, Structural)]
pub struct RelocatedRange {
    pub original_start: usize,
    pub original_end: usize,
    pub relocated_start: usize,
}

impl RelocatedRange {
    /// The range `[start, end)` mapped at `relocated_start`; none when the
    /// mapped range would pass the end of the address space.
    pub fn new(start: usize, end: usize, relocated_start: usize) -> (r: Option<RelocatedRange>)
        requires
            start <= end,
        ensures
            r is Some <==> relocated_start + (end - start) <= usize::MAX,
            r matches Some(rr) ==> rr == (RelocatedRange { original_start: start, original_end: end, relocated_start }),
    {
        let len = end - start;
        if relocated_start > usize::MAX - len {
            None
        } else {
            Some(RelocatedRange { original_start: start, original_end: end, relocated_start })
        }
    }

    pub open spec fn wf(self) -> bool {
        &&& self.original_start <= self.original_end
        &&& self.relocated_start + (self.original_end - self.original_start) <= usize::MAX
    }

    /// Where the link-time address `addr` is mapped: none outside the range.
    pub open spec fn relocated_addr_spec(self, addr: usize) -> Option<usize> {
        if self.original_start <= addr < self.original_end {
            Some((addr - self.original_start + self.relocated_start) as usize)
        } else {
            None
        }
    }

    pub fn relocated_addr_of(&self, addr: usize) -> (r: Option<usize>)
        requires
            self.wf(),
        ensures
            r == self.relocated_addr_spec(addr),
    {
        if self.original_start <= addr && addr < self.original_end {
            Some(addr - self.original_start + self.relocated_start)
        } else {
            None
        }
    }

    /// The first mapped address.
    pub fn relocated_start(&self) -> (r: usize)
        ensures
            r == self.relocated_start,
    {
        self.relocated_start
    }

    /// How far the range was moved, as a two's-complement 64-bit value.
    pub fn load_bias(&self) -> (b: i64)
        ensures
            b == ((self.relocated_start as int - self.original_start as int) % 0x1_0000_0000_0000_0000)
                as u64 as i64,
    {
        (self.relocated_start as u64).wrapping_sub(self.original_start as u64) as i64
    }
}

/// Keys of the auxiliary vector a program is started with.
#[allow(non_camel_case_types)]
#[derive(Clone, Copy, Debug, PartialEq, Eq, Structural)]
pub enum AuxKey {
    AT_PHDR,
    AT_PHENT,
    AT_PHNUM,
    AT_PAGESZ,
    AT_BASE,
    AT_ENTRY,
    AT_SECURE,
    AT_SYSINFO_EHDR,
}

impl AuxKey {
    /// The key's number in the auxiliary vector.
    pub fn code(&self) -> (c: u64)
        ensures
            c == self.code_spec(),
    {
        match self {
            AuxKey::AT_PHDR => 3,
            AuxKey::AT_PHENT => 4,
            AuxKey::AT_PHNUM => 5,
            AuxKey::AT_PAGESZ => 6,
            AuxKey::AT_BASE => 7,
            AuxKey::AT_ENTRY => 9,
            AuxKey::AT_SECURE => 23,
            AuxKey::AT_SYSINFO_EHDR => 33,
        }
    }

    pub open spec fn code_spec(self) -> u64 {
        match self {
            AuxKey::AT_PHDR => 3,
            AuxKey::AT_PHENT => 4,
            AuxKey::AT_PHNUM => 5,
            AuxKey::AT_PAGESZ => 6,
            AuxKey::AT_BASE => 7,
            AuxKey::AT_ENTRY => 9,
            AuxKey::AT_SECURE => 23,
            AuxKey::AT_SYSINFO_EHDR => 33,
        }
    }
}

/// The auxiliary vector of a program mapped by `range`: page size, the
/// relocated program headers (their link-time address `phdrs_vaddr`, count
/// and entry size), the relocated entry point and, with an interpreter,
/// its base, in that order. `ENOEXEC` when the program headers or the
/// entry point lie outside the mapped segments; an error finding the
/// program headers is passed on.
pub fn init_aux_vec(
    range: &RelocatedRange,
    phdrs_vaddr: Result<usize, Errno>,
    ph_count: u16,
    ph_ent: u16,
    entry_point: usize,
    ldso_base: Option<usize>,
) -> (r: Result<Vec<(AuxKey, u64)>, Errno>)
    requires
        range.wf(),
    ensures
        match phdrs_vaddr {
            Err(e) => r == Err::<Vec<(AuxKey, u64)>, Errno>(e),
            Ok(pv) => match (range.relocated_addr_spec(pv), range.relocated_addr_spec(entry_point)) {
                (Some(ph), Some(en)) => r matches Ok(v) && v@ == seq![
                    (AuxKey::AT_PAGESZ, 4096u64),
                    (AuxKey::AT_PHDR, ph as u64),
                    (AuxKey::AT_PHNUM, ph_count as u64),
                    (AuxKey::AT_PHENT, ph_ent as u64),
                    (AuxKey::AT_ENTRY, en as u64),
                ] + match ldso_base {
                    Some(b) => seq![(AuxKey::AT_BASE, b as u64)],
                    None => Seq::empty(),
                },
                _ => r == Err::<Vec<(AuxKey, u64)>, Errno>(Errno::ENOEXEC),
            },
        },
{
    let mut aux: Vec<(AuxKey, u64)> = Vec::new();
    aux.push((AuxKey::AT_PAGESZ, PAGE_SIZE as u64));
    let pv = match phdrs_vaddr {
        Err(e) => {
            return Err(e);
        },
        Ok(pv) => pv,
    };
    let ph = match range.relocated_addr_of(pv) {
        None => {
            return Err(Errno::ENOEXEC);
        },
        Some(ph) => ph,
    };
    aux.push((AuxKey::AT_PHDR, ph as u64));
    aux.push((AuxKey::AT_PHNUM, ph_count as u64));
    aux.push((AuxKey::AT_PHENT, ph_ent as u64));
    let en = match range.relocated_addr_of(entry_point) {
        None => {
            return Err(Errno::ENOEXEC);
        },
        Some(en) => en,
    };
    aux.push((AuxKey::AT_ENTRY, en as u64));
    if let Some(b) = ldso_base {
        aux.push((AuxKey::AT_BASE, b as u64));
    }
    proof {
        let tail: Seq<(AuxKey, u64)> = match ldso_base {
            Some(b) => seq![(AuxKey::AT_BASE, b as u64)],
            None => Seq::empty(),
        };
        assert(aux@ =~= seq![
            (AuxKey::AT_PAGESZ, 4096u64),
            (AuxKey::AT_PHDR, ph as u64),
            (AuxKey::AT_PHNUM, ph_count as u64),
            (AuxKey::AT_PHENT, ph_ent as u64),
            (AuxKey::AT_ENTRY, en as u64),
        ] + tail);
    }
    Ok(aux)
}

/// `AT_SECURE`: 1 for a set-user-ID or set-group-ID executable, else 0.
pub fn aux_secure(set_uid: bool, set_gid: bool) -> (v: u64)
    ensures
        v == (if set_uid || set_gid { 1u64 } else { 0u64 }),
{
    if set_uid || set_gid {
        1
    } else {
        0
    }
}

/// Where a program starts: the interpreter's entry point when there is one,
/// else the program's own relocated entry point, `ENOEXEC` when that lies
/// outside the mapped segments.
pub fn program_entry(range: &RelocatedRange, entry_point: usize, ldso_entry: Option<usize>) -> (r: Result<usize, Errno>)
    requires
        range.wf(),
    ensures
        ldso_entry matches Some(e) ==> r == Ok::<usize, Errno>(e),
        ldso_entry is None ==> r == match range.relocated_addr_spec(entry_point) {
            Some(a) => Ok::<usize, Errno>(a),
            None => Err(Errno::ENOEXEC),
        },
{
    match ldso_entry {
        Some(e) => Ok(e),
        None => match range.relocated_addr_of(entry_point) {
            Some(a) => Ok(a),
            None => Err(Errno::ENOEXEC),
        },
    }
}

/// The relocated `[start, start + len)` of a segment whose link-time
/// start `start` lies in `range`.
pub fn relocated_segment(range: &RelocatedRange, start: usize, len: usize) -> (r: (usize, usize))
    requires
        range.wf(),
        range.original_start <= start,
        start + len <= range.original_end,
    ensures
        r.0 == start - range.original_start + range.relocated_start,
        r.1 == r.0 + len,
{
    let s = start - range.original_start + range.relocated_start;
    (s, s + len)
}

} // verus!
