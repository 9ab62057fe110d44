//! x86_64 4-level page table entries: their flags and addresses, what an
//! entry points to at each level, and how virtual addresses index tables.
//! See "4.5 4-Level Paging and 5-Level Paging" in the Intel SDM, volume 3.

use vstd::prelude::*;

use super::address::{
    canonical, in_physical_mapping, virt_addr_valid, KernPhysAddr, PhysAddr, VirtAddr,
    KERNEL_PHYSICAL_MAPPING_START,
};
use super::page::{aligned, Page, PageSize};

verus! {

/// All page table levels have 512 entries.
pub const NUM_PAGE_TABLE_ENTRIES: usize = 512;

/// Bits 12 to 51 of an entry: the physical address it points to.
pub const ADDRESS_MASK: u64 = 0x000f_ffff_ffff_f000;

/// Every flag bit: bits 0 to 11 and 52 to 63.
pub const ALL_FLAGS: u64 = 0xfff0_0000_0000_0fff;

/// Flags for all levels of page table entries.
#[derive(Debug, Clone, Copy, PartialEq, Eq, Structural)]
pub struct PageTableEntryFlags(pub u64);

impl PageTableEntryFlags {
    /// Indicates if entry is valid. If this bit is unset, the entry is ignored.
    pub const PRESENT: u64 = 1;
    /// If unset, then the region represented by this entry cannot be written to.
    pub const WRITABLE: u64 = 1 << 1;
    /// If set, access from ring 3 is permitted.
    pub const USER_ACCESSIBLE: u64 = 1 << 2;
    /// If set, a "write-through" policy is used for the cache.
    pub const PAGE_WRITE_THROUGH: u64 = 1 << 3;
    /// Disables caching.
    pub const PAGE_CACHE_DISABLE: u64 = 1 << 4;
    /// Set by the CPU when the mapped frame or page table is accessed.
    pub const ACCESSED: u64 = 1 << 5;
    /// Set by the CPU on a write to the mapped frame.
    pub const DIRTY: u64 = 1 << 6;
    /// Only allowed in level 2 or 3 tables: the entry points to a 1 GiB
    /// (level 3) or 2 MiB (level 2) page.
    pub const HUGE_PAGE: u64 = 1 << 7;
    /// The mapping is present in all address spaces.
    pub const GLOBAL: u64 = 1 << 8;
    /// The memory in the region cannot be executed.
    pub const NO_EXECUTE: u64 = 1 << 63;

    /// The flags among `bits`, other bits dropped.
    pub fn from_bits_truncate(bits: u64) -> (r: PageTableEntryFlags)
        ensures
            r.0 == bits & ALL_FLAGS,
    {
        PageTableEntryFlags(bits & ALL_FLAGS)
    }

    pub fn bits(self) -> (r: u64)
        ensures
            r == self.0,
    {
        self.0
    }

    /// Whether every flag of `other` is set.
    pub fn contains(self, other: u64) -> (r: bool)
        ensures
            r == (self.0 & other == other),
    {
        self.0 & other == other
    }

    /// The flags of both.
    pub fn union(self, other: u64) -> (r: PageTableEntryFlags)
        ensures
            r.0 == self.0 | other,
    {
        PageTableEntryFlags(self.0 | other)
    }

    /// The flags that are set in both.
    pub fn intersection(self, other: u64) -> (r: PageTableEntryFlags)
        ensures
            r.0 == self.0 & other,
    {
        PageTableEntryFlags(self.0 & other)
    }
}

#[derive(Debug, Clone, Copy, PartialEq, Eq, Structural)]
pub enum PageTableLevel {
    Level1,
    Level2,
    Level3,
    Level4,
}

impl PageTableLevel {
    pub open spec fn number(self) -> u64 {
        match self {
            PageTableLevel::Level1 => 1,
            PageTableLevel::Level2 => 2,
            PageTableLevel::Level3 => 3,
            PageTableLevel::Level4 => 4,
        }
    }

    pub fn as_u64(self) -> (r: u64)
        ensures
            r == self.number(),
    {
        match self {
            PageTableLevel::Level1 => 1,
            PageTableLevel::Level2 => 2,
            PageTableLevel::Level3 => 3,
            PageTableLevel::Level4 => 4,
        }
    }

    pub open spec fn lower(self) -> Option<PageTableLevel> {
        match self {
            PageTableLevel::Level4 => Some(PageTableLevel::Level3),
            PageTableLevel::Level3 => Some(PageTableLevel::Level2),
            PageTableLevel::Level2 => Some(PageTableLevel::Level1),
            PageTableLevel::Level1 => None,
        }
    }

    /// The level of the tables that this level's entries point to; `None`
    /// at the lowest level.
    pub fn next_lower_level(self) -> (r: Option<PageTableLevel>)
        ensures
            r == self.lower(),
            r matches Some(l) ==> l.number() + 1 == self.number(),
    {
        match self {
            PageTableLevel::Level4 => Some(PageTableLevel::Level3),
            PageTableLevel::Level3 => Some(PageTableLevel::Level2),
            PageTableLevel::Level2 => Some(PageTableLevel::Level1),
            PageTableLevel::Level1 => None,
        }
    }
}

/// Index into a page table, in the range 0..512 (9 bits).
#[derive(Debug, Clone, Copy, PartialEq, Eq, Structural)]
pub struct PageTableIndex(pub u16);

/// Bit where the index bits of a level start in a virtual address.
pub open spec fn level_shift(level: PageTableLevel) -> u64 {
    (12 + (level.number() - 1) * 9) as u64
}

impl PageTableIndex {
    pub fn new(index: u16) -> (r: PageTableIndex)
        requires
            index < NUM_PAGE_TABLE_ENTRIES,
        ensures
            r.0 == index,
    {
        PageTableIndex(index)
    }

    /// The index into a table of `level` that a virtual address selects:
    /// nine bits of the address, starting at bit 12 for level 1, 21 for
    /// level 2, 30 for level 3 and 39 for level 4.
    pub fn from_address(level: PageTableLevel, address: VirtAddr) -> (r: PageTableIndex)
        ensures
            r.0 == (address.0 >> level_shift(level)) & 0x1FF,
            r.0 < 512,
    {
        let shift = 12 + (level.as_u64() - 1) * 9;
        let raw = address.0;
        let index: u64 = (raw >> shift) & 0x1FF;
        assert(index < 512) by (bit_vector)
            requires
                index == (raw >> shift) & 0x1FF,
        ;
        PageTableIndex::new(index as u16)
    }
}

/// `address` with bit 47 copied into bits 48 to 63.
pub open spec fn sign_extended(address: u64) -> u64 {
    if address & 0x0000_8000_0000_0000 == 0 {
        address
    } else {
        (address | 0x0000_8000_0000_0000) | 0xFFFF_8000_0000_0000
    }
}

pub fn sign_extend_virtual_address(address: u64) -> (r: u64)
    ensures
        r == sign_extended(address),
{
    let sign_bit: u64 = 0x0000_8000_0000_0000;
    let sign_mask: u64 = 0xFFFF_8000_0000_0000;
    if (address & sign_bit) == 0 {
        return address;
    }
    (address | sign_bit) | sign_mask
}

/// Start address of the region that entry `index` of a table of `level`
/// covers, when the table is reached from the start of the address space.
pub fn page_table_entry_virtual_address(level: PageTableLevel, index: PageTableIndex) -> (r: VirtAddr)
    requires
        index.0 < 512,
    ensures
        r.0 == sign_extended((index.0 as u64) << level_shift(level)),
{
    let shift = (level.as_u64() - 1) * 9 + 12;
    let raw_addr = (index.0 as u64) << shift;
    let sign_extended = sign_extend_virtual_address(raw_addr);
    let i = index.0 as u64;
    assert(virt_addr_valid(sign_extended) && canonical(sign_extended) == sign_extended) by (bit_vector)
        requires
            i < 512,
            shift <= 39,
            raw_addr == i << shift,
            sign_extended == (if raw_addr & 0x0000_8000_0000_0000 == 0 {
                raw_addr
            } else {
                (raw_addr | 0x0000_8000_0000_0000) | 0xFFFF_8000_0000_0000
            }),
    ;
    VirtAddr::new(sign_extended)
}

/// What a page table entry points to: nothing, a page, or the table of the
/// next lower level (by its address).
#[derive(Debug, Clone, Copy)]
pub enum PageTableTarget {
    Unmapped,
    Page { page: Page<KernPhysAddr>, flags: PageTableEntryFlags },
    NextTable { level: PageTableLevel, table: KernPhysAddr },
}

#[derive(Debug, Clone, Copy, PartialEq, Eq, Structural)]
pub struct PageTableEntry(pub u64);

impl PageTableEntry {
    pub open spec fn raw_address_spec(self) -> u64 {
        self.0 & ADDRESS_MASK
    }

    pub open spec fn present(self) -> bool {
        self.0 & ALL_FLAGS & PageTableEntryFlags::PRESENT == PageTableEntryFlags::PRESENT
    }

    pub open spec fn huge(self) -> bool {
        self.0 & ALL_FLAGS & PageTableEntryFlags::HUGE_PAGE == PageTableEntryFlags::HUGE_PAGE
    }

    pub fn flags(self) -> (r: PageTableEntryFlags)
        ensures
            r.0 == self.0 & ALL_FLAGS,
    {
        PageTableEntryFlags::from_bits_truncate(self.0)
    }

    /// Keeps the address and replaces the flags.
    pub fn set_flags(&mut self, flags: PageTableEntryFlags)
        ensures
            final(self).0 == (old(self).0 & ADDRESS_MASK) | flags.0,
    {
        self.0 = self.raw_address() | flags.bits();
    }

    pub fn raw_address(self) -> (r: u64)
        ensures
            r == self.raw_address_spec(),
    {
        self.0 & ADDRESS_MASK
    }

    /// The address the entry points to, in the kernel's mapping of physical
    /// memory.
    pub fn address(self) -> (r: KernPhysAddr)
        requires
            in_physical_mapping(self.raw_address_spec() + KERNEL_PHYSICAL_MAPPING_START),
        ensures
            r.0 == self.raw_address_spec() + KERNEL_PHYSICAL_MAPPING_START,
    {
        let raw = self.raw_address();
        let entry = self.0;
        assert(raw < 0x10_0000_0000_0000) by (bit_vector)
            requires
                raw == entry & 0x000f_ffff_ffff_f000u64,
        ;
        let phys = PhysAddr::new(raw);
        KernPhysAddr::from_phys_addr(phys)
    }

    /// Sets the address bits; the address must have no bit outside them,
    /// and the entry's address bits must be clear.
    pub fn set_address(&mut self, addr: PhysAddr)
        requires
            addr.0 & !ADDRESS_MASK == 0,
        ensures
            final(self).0 == old(self).0 | addr.0,
    {
        self.0 = self.0 | addr.as_u64();
    }

    pub fn is_present(self) -> (r: bool)
        ensures
            r == self.present(),
    {
        self.flags().contains(PageTableEntryFlags::PRESENT)
    }

    pub fn clear(&mut self)
        ensures
            final(self).0 == 0,
    {
        self.0 = 0;
    }

    /// Points the entry at `page` with `flags`, marked present.
    pub fn set_target_page(&mut self, page: &Page<KernPhysAddr>, flags: PageTableEntryFlags)
        requires
            in_physical_mapping(page.start_addr.0 as int),
            (page.start_addr.0 - KERNEL_PHYSICAL_MAPPING_START) as u64 & !ADDRESS_MASK == 0,
        ensures
            final(self).0 == ((old(self).0 | (page.start_addr.0 - KERNEL_PHYSICAL_MAPPING_START) as u64)
                & ADDRESS_MASK) | (flags.0 | PageTableEntryFlags::PRESENT),
    {
        let phys = page.start_addr.to_phys_addr();
        self.set_address(phys);
        self.set_flags(flags.union(PageTableEntryFlags::PRESENT));
    }

    /// What the entry points to in a table of `level`: nothing if it is not
    /// present; a page if it is at level 1, or is a huge page (1 GiB at
    /// level 3, 2 MiB at level 2); the next table otherwise. Huge pages are
    /// not allowed at levels 4 and 1.
    pub fn target(self, level: PageTableLevel) -> (r: PageTableTarget)
        requires
            self.present() ==> in_physical_mapping(self.raw_address_spec() + KERNEL_PHYSICAL_MAPPING_START),
            self.present() && self.huge() ==> level == PageTableLevel::Level3 || level
                == PageTableLevel::Level2,
            self.present() && self.huge() && level == PageTableLevel::Level3 ==> aligned(
                (self.raw_address_spec() + KERNEL_PHYSICAL_MAPPING_START) as u64,
                PageSize::Size1GiB.bytes(),
            ),
            self.present() && self.huge() && level == PageTableLevel::Level2 ==> aligned(
                (self.raw_address_spec() + KERNEL_PHYSICAL_MAPPING_START) as u64,
                PageSize::Size2MiB.bytes(),
            ),
        ensures
            !self.present() ==> r is Unmapped,
            self.present() ==> match r {
                PageTableTarget::Unmapped => false,
                PageTableTarget::Page { page, flags } => {
                    &&& (self.huge() || level == PageTableLevel::Level1)
                    &&& page.start_addr.0 == self.raw_address_spec() + KERNEL_PHYSICAL_MAPPING_START
                    &&& flags.0 == self.0 & ALL_FLAGS
                    &&& page.size == (if !self.huge() {
                        PageSize::Size4KiB
                    } else if level == PageTableLevel::Level3 {
                        PageSize::Size1GiB
                    } else {
                        PageSize::Size2MiB
                    })
                },
                PageTableTarget::NextTable { level: next, table } => {
                    &&& !self.huge()
                    &&& level.lower() == Some(next)
                    &&& table.0 == self.raw_address_spec() + KERNEL_PHYSICAL_MAPPING_START
                },
            },
    {
        if !self.is_present() {
            return PageTableTarget::Unmapped;
        }
        let flags = self.flags();
        if flags.contains(PageTableEntryFlags::HUGE_PAGE) {
            let page_size = match level {
                PageTableLevel::Level3 => PageSize::Size1GiB,
                _ => PageSize::Size2MiB,
            };
            return PageTableTarget::Page { page: Page::from_start_addr(self.address(), page_size), flags };
        }
        match level.next_lower_level() {
            None => {
                let address = self.address();
                let raw = self.raw_address();
                let entry = self.0;
                proof {
                    assert(raw % 4096 == 0) by (bit_vector)
                        requires
                            raw == entry & 0x000f_ffff_ffff_f000u64,
                    ;
                }
                PageTableTarget::Page { page: Page::from_start_addr(address, PageSize::Size4KiB), flags }
            },
            Some(next) => PageTableTarget::NextTable { level: next, table: self.address() },
        }
    }
}

} // verus!
