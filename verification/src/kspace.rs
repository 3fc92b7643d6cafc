//! The kernel address space layout, how kernel page table entries tell
//! tracked frames from untracked memory, and the null-page rule of the
//! page fault handler.

use vstd::prelude::*;

use crate::errno::Errno;

verus! {

/// The architectures the kernel runs on.
#[derive(Clone, Copy, Debug, PartialEq, Eq, Structural)]
pub enum Arch {
    X86_64,
    Aarch64,
    Riscv64,
    Loongarch64,
}

/// Where each architecture's kernel code is linked.
pub open spec fn kernel_code_base(arch: Arch) -> u64 {
    match arch {
        Arch::X86_64 => 0xffff_ffff_8000_0000,
        Arch::Aarch64 => 0xffff_8000_0000_0000,
        Arch::Riscv64 => 0xffff_ffff_0000_0000,
        Arch::Loongarch64 => 0x9000_0000_0000_0000,
    }
}

/// The offset the kernel code is loaded at.
pub fn kernel_loaded_offset(arch: Arch) -> (o: u64)
    ensures
        o == kernel_code_base(arch),
{
    match arch {
        Arch::X86_64 => 0xffff_ffff_8000_0000,
        Arch::Aarch64 => 0xffff_8000_0000_0000,
        Arch::Riscv64 => 0xffff_ffff_0000_0000,
        Arch::Loongarch64 => 0x9000_0000_0000_0000,
    }
}

/// The kernel address regions for an address width (39 to 48 bits): the
/// 39-bit layout shifted left by the extra width, truncated to 64 bits.
#[derive(Clone, Copy, Debug, PartialEq, Eq, Structural)]
pub struct KernelLayout {
    pub kernel_base: u64,
    pub kernel_end: u64,
    pub max_userspace: u64,
    pub linear_mapping_base: u64,
    pub vmalloc_base: u64,
    pub frame_metadata_base: u64,
    pub frame_metadata_cap: u64,
}

pub open spec fn shifted(v: u64, s: u64) -> u64 {
    v << s
}

impl KernelLayout {
    /// The layout for `address_width` bits of virtual address.
    pub fn new(address_width: u64) -> (l: KernelLayout)
        requires
            39 <= address_width <= 57,
        ensures
            l.kernel_base == shifted(0xffff_ffc0_0000_0000, (address_width - 39) as u64),
            l.kernel_end == 0xffff_ffff_ffff_0000,
            l.max_userspace == shifted(0x0000_0040_0000_0000, (address_width - 39) as u64) - 4096,
            l.linear_mapping_base == shifted(0xffff_ffc0_0000_0000, (address_width - 39) as u64),
            l.vmalloc_base == shifted(0xffff_ffe0_0000_0000, (address_width - 39) as u64),
            l.frame_metadata_base == shifted(0xffff_fff0_0000_0000, (address_width - 39) as u64),
            l.frame_metadata_cap == shifted(0xffff_fff0_8000_0000, (address_width - 39) as u64),
    {
        let s = address_width - 39;
        let user_top: u64 = 0x0000_0040_0000_0000u64 << s;
        assert(0x0000_0040_0000_0000u64 << s >= 4096) by (bit_vector)
            requires
                s <= 18,
        ;
        KernelLayout {
            kernel_base: 0xffff_ffc0_0000_0000u64 << s,
            kernel_end: 0xffff_ffff_ffff_0000,
            max_userspace: user_top - 4096,
            linear_mapping_base: 0xffff_ffc0_0000_0000u64 << s,
            vmalloc_base: 0xffff_ffe0_0000_0000u64 << s,
            frame_metadata_base: 0xffff_fff0_0000_0000u64 << s,
            frame_metadata_cap: 0xffff_fff0_8000_0000u64 << s,
        }
    }

    /// The kernel address of physical address `pa` in the linear mapping,
    /// which covers the physical addresses below the vmalloc area's
    /// distance from its base.
    pub fn paddr_to_vaddr(&self, pa: u64) -> (va: u64)
        requires
            self.linear_mapping_base <= self.vmalloc_base,
            pa < self.vmalloc_base - self.linear_mapping_base,
        ensures
            va == pa + self.linear_mapping_base,
    {
        pa + self.linear_mapping_base
    }
}

/// For 48-bit addresses the linear mapping starts at `0xffff_8000_0000_0000`.
pub proof fn lemma_layout_48()
    ensures
        shifted(0xffff_ffc0_0000_0000, 9) == 0xffff_8000_0000_0000,
        shifted(0xffff_ffe0_0000_0000, 9) == 0xffff_c000_0000_0000,
{
    assert(0xffff_ffc0_0000_0000u64 << 9u64 == 0xffff_8000_0000_0000u64) by (bit_vector);
    assert(0xffff_ffe0_0000_0000u64 << 9u64 == 0xffff_c000_0000_0000u64) by (bit_vector);
}

/// Page size.
pub const PAGE_SIZE: usize = 4096;

/// The fault of a memory access.
#[derive(Clone, Copy, Debug, PartialEq, Eq, Structural)]
pub struct PageFaultInfo {
    /// The faulting address.
    pub address: usize,
    /// The access the operation needed (read 1, write 2, execute 4).
    pub required_perms: u32,
    /// Forced faults (from `ptrace`) may bypass permission checks.
    pub is_forced: bool,
}

impl PageFaultInfo {
    pub fn new(address: usize, required_perms: u32) -> (p: PageFaultInfo)
        ensures
            p.address == address && p.required_perms == required_perms && !p.is_forced,
    {
        PageFaultInfo { address, required_perms, is_forced: false }
    }

    pub fn is_forced(&self) -> (f: bool)
        ensures
            f == self.is_forced,
    {
        self.is_forced
    }

    /// The same fault, forced.
    pub fn force(self) -> (p: PageFaultInfo)
        ensures
            p == (PageFaultInfo { is_forced: true, ..self }),
    {
        PageFaultInfo { is_forced: true, ..self }
    }
}

/// The page to map for a fault on the null page (aarch64 maps a zero page
/// there), if the fault is in it.
pub fn null_page_map_addr(address: usize) -> (a: Option<usize>)
    ensures
        address < PAGE_SIZE ==> a == Some(0usize),
        address >= PAGE_SIZE ==> a is None,
{
    if address < PAGE_SIZE {
        let m = address & !(PAGE_SIZE - 1);
        assert(address < 4096 ==> address & !4095usize == 0) by (bit_vector);
        Some(m)
    } else {
        None
    }
}

/// How a fault is handled.
#[derive(Clone, Copy, Debug, PartialEq, Eq, Structural)]
pub enum FaultAction {
    /// The zero page was mapped at the null page.
    NullPageMapped,
    /// The mapping holding the address handles it.
    Mapping,
}

/// Handling a fault: a null-page fault whose zero page could be mapped is
/// done; otherwise the mapping holding the address handles it, and with no
/// such mapping the fault is `EACCES`.
pub fn handle_page_fault(address: usize, null_page_mapped: bool, in_mapping: bool) -> (r: Result<FaultAction, Errno>)
    ensures
        address < PAGE_SIZE && null_page_mapped ==> r == Ok::<FaultAction, Errno>(FaultAction::NullPageMapped),
        !(address < PAGE_SIZE && null_page_mapped) && in_mapping ==> r == Ok::<FaultAction, Errno>(
            FaultAction::Mapping,
        ),
        !(address < PAGE_SIZE && null_page_mapped) && !in_mapping ==> r == Err::<FaultAction, Errno>(
            Errno::EACCES,
        ),
{
    if address < PAGE_SIZE && null_page_mapped {
        return Ok(FaultAction::NullPageMapped);
    }
    if in_mapping {
        Ok(FaultAction::Mapping)
    } else {
        Err(Errno::EACCES)
    }
}

/// The privileged page flag the kernel page table uses to mark an entry
/// that maps a tracked frame.
pub const AVAIL1: u8 = 0b0100_0000;

/// The properties of a mapped page: its access flags, cache policy and
/// privileged flags.
#[derive(Clone, Copy, Debug, PartialEq, Eq, Structural)]
pub struct PageProperty {
    pub flags: u8,
    pub cache: u8,
    pub priv_flags: u8,
}

/// What a kernel page table entry maps: a tracked frame (by its address
/// and mapping level) or untracked physical memory.
#[derive(Clone, Copy, Debug, PartialEq, Eq, Structural)]
pub enum MappedItem {
    TrackedFrame { paddr: usize, level: u8, prop: PageProperty },
    Untracked { paddr: usize, level: u8, prop: PageProperty },
}

/// The entry's address, level and properties: the privileged flags carry
/// `AVAIL1` exactly for a tracked frame.
pub open spec fn raw_info_spec(item: MappedItem) -> (usize, u8, PageProperty) {
    match item {
        MappedItem::TrackedFrame { paddr, level, prop } => (paddr, level, PageProperty { priv_flags: prop.priv_flags | AVAIL1, ..prop }),
        MappedItem::Untracked { paddr, level, prop } => (
            paddr,
            level,
            PageProperty { priv_flags: prop.priv_flags & !AVAIL1, ..prop },
        ),
    }
}

/// What an entry with these raw values maps: a tracked frame when
/// `AVAIL1` is set, untracked memory otherwise.
pub open spec fn from_raw_spec(paddr: usize, level: u8, prop: PageProperty) -> MappedItem {
    if prop.priv_flags & AVAIL1 != 0 {
        MappedItem::TrackedFrame { paddr, level, prop }
    } else {
        MappedItem::Untracked { paddr, level, prop }
    }
}

pub fn item_raw_info(item: &MappedItem) -> (r: (usize, u8, PageProperty))
    ensures
        r == raw_info_spec(*item),
{
    match *item {
        MappedItem::TrackedFrame { paddr, level, prop } => (paddr, level, PageProperty { priv_flags: prop.priv_flags | AVAIL1, ..prop }),
        MappedItem::Untracked { paddr, level, prop } => (
            paddr,
            level,
            PageProperty { priv_flags: prop.priv_flags & !AVAIL1, ..prop },
        ),
    }
}

pub fn item_from_raw(paddr: usize, level: u8, prop: PageProperty) -> (item: MappedItem)
    ensures
        item == from_raw_spec(paddr, level, prop),
{
    if prop.priv_flags & AVAIL1 != 0 {
        MappedItem::TrackedFrame { paddr, level, prop }
    } else {
        MappedItem::Untracked { paddr, level, prop }
    }
}

/// Reading an entry back gives what was stored in it: the same kind of
/// mapping, address and level, and the same properties up to the
/// `AVAIL1` marker, which a tracked frame then carries.
pub proof fn lemma_item_raw_round_trip(item: MappedItem)
    ensures
        ({
            let (pa, lv, prop) = raw_info_spec(item);
            match item {
                MappedItem::TrackedFrame { paddr, level, prop: p } => from_raw_spec(pa, lv, prop) == (MappedItem::TrackedFrame {
                    paddr,
                    level,
                    prop: PageProperty { priv_flags: p.priv_flags | AVAIL1, ..p },
                }),
                MappedItem::Untracked { paddr, level, prop: p } => from_raw_spec(pa, lv, prop) == (
                MappedItem::Untracked { paddr, level, prop: PageProperty { priv_flags: p.priv_flags & !AVAIL1, ..p } }),
            }
        }),
{
    match item {
        MappedItem::TrackedFrame { paddr, level, prop: p } => {
            let f = p.priv_flags;
            assert((f | AVAIL1) & AVAIL1 != 0) by (bit_vector);
        },
        MappedItem::Untracked { paddr, level, prop: p } => {
            let f = p.priv_flags;
            assert((f & !AVAIL1) & AVAIL1 == 0) by (bit_vector);
        },
    }
}

/// An untracked entry without the marker is read back unchanged.
pub proof fn lemma_untracked_round_trip(paddr: usize, level: u8, prop: PageProperty)
    requires
        prop.priv_flags & AVAIL1 == 0,
    ensures
        ({
            let (pa, lv, pr) = raw_info_spec(MappedItem::Untracked { paddr, level, prop });
            from_raw_spec(pa, lv, pr) == (MappedItem::Untracked { paddr, level, prop })
        }),
{
    let f = prop.priv_flags;
    assert(f & AVAIL1 == 0 ==> f & !AVAIL1 == f) by (bit_vector);
    lemma_item_raw_round_trip(MappedItem::Untracked { paddr, level, prop });
}

} // verus!
