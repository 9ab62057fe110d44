//! Four-level page tables held in physical memory: translating a virtual
//! address, changing the flags of a mapping, mapping and unmapping pages.
//!
//! Physical memory is modelled as the 8-byte words that page tables are made
//! of; a table at physical address `t` holds its 512 entries in the words
//! from `t / 8` on, and the entry that a virtual address selects at each
//! level is found as the CPU finds it.

use vstd::prelude::*;

use super::address::{
    in_physical_mapping, KernPhysAddr, PhysAddr, VirtAddr, KERNEL_PHYSICAL_MAPPING_END, KERNEL_PHYSICAL_MAPPING_START,
};
use super::page::{aligned, Page, PageSize};
use crate::bitmap_alloc::chunk::set_range;
use crate::bitmap_alloc::allocator::{has_no_free_run, is_first_free_run};
use crate::bitmap_alloc::chunk::is_free_run;
use super::physical::{
    free_count, lemma_free_count_use, lemma_free_count_zero, page_address, AllocError, PhysicalMemoryAllocator,
};
use super::page_table::{
    level_shift, PageTableEntry, PageTableEntryFlags, PageTableIndex, PageTableLevel, PageTableTarget,
    ADDRESS_MASK, ALL_FLAGS,
};

verus! {

/// Physical memory as the paging code sees it: the 8-byte word at physical
/// address `8 * k` is `words[k]`.
pub struct PhysicalMemory {
    pub words: Vec<u64>,
}

/// Whether a page table at physical address `table` lies in memory `mem`.
pub open spec fn table_in(mem: Seq<u64>, table: int) -> bool {
    &&& 0 <= table
    &&& table % 4096 == 0
    &&& table / 8 + 512 <= mem.len()
}

/// The index of the entry that virtual address `va` selects in a table of
/// `level`.
pub open spec fn va_index(level: PageTableLevel, va: u64) -> int {
    ((va >> level_shift(level)) & 0x1FF) as int
}

/// The word holding the entry that `va` selects in the table at `table` of
/// `level`.
pub open spec fn entry_word(table: int, level: PageTableLevel, va: u64) -> int {
    table / 8 + va_index(level, va)
}

/// The entry that `va` selects in the table at `table` of `level`.
pub open spec fn entry_for(mem: Seq<u64>, table: int, level: PageTableLevel, va: u64) -> PageTableEntry {
    PageTableEntry(mem[entry_word(table, level, va)])
}

/// The size of a huge page mapped at `level`: 1 GiB at level 3, 2 MiB at
/// level 2.
pub open spec fn huge_page_size(level: PageTableLevel) -> PageSize {
    if level == PageTableLevel::Level3 {
        PageSize::Size1GiB
    } else {
        PageSize::Size2MiB
    }
}

/// The kernel address of the memory an entry points to.
pub open spec fn entry_target_address(e: PageTableEntry) -> int {
    e.raw_address_spec() + KERNEL_PHYSICAL_MAPPING_START
}

/// What `va` translates to through an entry that maps a page of `size`.
pub open spec fn mapping_of(e: PageTableEntry, size: PageSize, va: u64) -> TranslateResult {
    TranslateResult::Mapped(
        AddressPageMapping {
            page: Page { start_addr: KernPhysAddr(entry_target_address(e) as u64), size },
            flags: PageTableEntryFlags(e.0 & ALL_FLAGS),
            offset: (va as int % size.bytes()) as u64,
        },
    )
}

/// What `va` translates to, walking from the table at `table` of `level`:
/// unmapped at the first entry that is not present; mapped at the first
/// huge page entry, or at the level 1 entry.
pub open spec fn walk(mem: Seq<u64>, table: int, level: PageTableLevel, va: u64) -> TranslateResult
    decreases level.number(),
{
    let e = entry_for(mem, table, level, va);
    if !e.present() {
        TranslateResult::Unmapped
    } else if e.huge() {
        mapping_of(e, huge_page_size(level), va)
    } else {
        match level {
            PageTableLevel::Level1 => mapping_of(e, PageSize::Size4KiB, va),
            PageTableLevel::Level2 => walk(mem, e.raw_address_spec() as int, PageTableLevel::Level1, va),
            PageTableLevel::Level3 => walk(mem, e.raw_address_spec() as int, PageTableLevel::Level2, va),
            PageTableLevel::Level4 => walk(mem, e.raw_address_spec() as int, PageTableLevel::Level3, va),
        }
    }
}

/// Whether the walk for `va` from the table at `table` of `level` can be
/// made: every table it visits lies in memory, every present entry points
/// into the kernel's mapping of physical memory, huge pages appear only at
/// levels 3 and 2 and are aligned to their size.
pub open spec fn walk_ok(mem: Seq<u64>, table: int, level: PageTableLevel, va: u64) -> bool
    decreases level.number(),
{
    let e = entry_for(mem, table, level, va);
    &&& table_in(mem, table)
    &&& e.present() ==> in_physical_mapping(entry_target_address(e))
    &&& e.present() && e.huge() ==> {
        &&& (level == PageTableLevel::Level3 || level == PageTableLevel::Level2)
        &&& aligned(entry_target_address(e) as u64, huge_page_size(level).bytes())
    }
    &&& e.present() && !e.huge() ==> match level {
        PageTableLevel::Level1 => true,
        PageTableLevel::Level2 => walk_ok(mem, e.raw_address_spec() as int, PageTableLevel::Level1, va),
        PageTableLevel::Level3 => walk_ok(mem, e.raw_address_spec() as int, PageTableLevel::Level2, va),
        PageTableLevel::Level4 => walk_ok(mem, e.raw_address_spec() as int, PageTableLevel::Level3, va),
    }
}

/// The word of the entry at which the walk for `va` stops: the first entry
/// that is not present, maps a huge page, or sits at level 1.
pub open spec fn leaf_word(mem: Seq<u64>, table: int, level: PageTableLevel, va: u64) -> int
    decreases level.number(),
{
    let e = entry_for(mem, table, level, va);
    if !e.present() || e.huge() {
        entry_word(table, level, va)
    } else {
        match level {
            PageTableLevel::Level1 => entry_word(table, level, va),
            PageTableLevel::Level2 => leaf_word(mem, e.raw_address_spec() as int, PageTableLevel::Level1, va),
            PageTableLevel::Level3 => leaf_word(mem, e.raw_address_spec() as int, PageTableLevel::Level2, va),
            PageTableLevel::Level4 => leaf_word(mem, e.raw_address_spec() as int, PageTableLevel::Level3, va),
        }
    }
}

/// Whether the page frame holding the table at `table` is in use in the
/// allocator's bitmap `a`.
pub open spec fn frame_used(a: Seq<bool>, table: int) -> bool {
    &&& 0 <= table / 4096 < a.len()
    &&& a[table / 4096]
}

/// `mem` with the 512 words of page frame `frame` set to zero.
pub open spec fn zero_frame(mem: Seq<u64>, frame: int) -> Seq<u64> {
    Seq::new(mem.len(), |w: int| if frame * 512 <= w < frame * 512 + 512 { 0u64 } else { mem[w] })
}

/// The level at which the walk for `va` stops: that of the first entry that
/// is not present, maps a huge page, or sits at level 1.
pub open spec fn stop_level(mem: Seq<u64>, table: int, level: PageTableLevel, va: u64) -> PageTableLevel
    decreases level.number(),
{
    let e = entry_for(mem, table, level, va);
    if !e.present() || e.huge() {
        level
    } else {
        match level {
            PageTableLevel::Level1 => level,
            PageTableLevel::Level2 => stop_level(mem, e.raw_address_spec() as int, PageTableLevel::Level1, va),
            PageTableLevel::Level3 => stop_level(mem, e.raw_address_spec() as int, PageTableLevel::Level2, va),
            PageTableLevel::Level4 => stop_level(mem, e.raw_address_spec() as int, PageTableLevel::Level3, va),
        }
    }
}

/// Whether the walk for `va` goes from the table at `table` of `level` to
/// the table at `target` of `target_level`, through tables whose frames are
/// in use in `a`.
pub open spec fn chain(
    mem: Seq<u64>,
    a: Seq<bool>,
    table: int,
    level: PageTableLevel,
    va: u64,
    target: int,
    target_level: PageTableLevel,
) -> bool
    decreases level.number(),
{
    let e = entry_for(mem, table, level, va);
    &&& frame_used(a, table)
    &&& table_in(mem, table)
    &&& (table == target && level == target_level) || {
        &&& e.present()
        &&& !e.huge()
        &&& in_physical_mapping(entry_target_address(e))
        &&& match level {
            PageTableLevel::Level1 => false,
            PageTableLevel::Level2 => chain(mem, a, e.raw_address_spec() as int, PageTableLevel::Level1, va, target, target_level),
            PageTableLevel::Level3 => chain(mem, a, e.raw_address_spec() as int, PageTableLevel::Level2, va, target, target_level),
            PageTableLevel::Level4 => chain(mem, a, e.raw_address_spec() as int, PageTableLevel::Level3, va, target, target_level),
        }
    }
}

/// Whether every table that the walk for `va` visits from the table at
/// `table` of `level` sits in a frame in use in `a`.
pub open spec fn path_used(mem: Seq<u64>, a: Seq<bool>, table: int, level: PageTableLevel, va: u64) -> bool
    decreases level.number(),
{
    let e = entry_for(mem, table, level, va);
    &&& frame_used(a, table)
    &&& e.present() && !e.huge() ==> match level {
        PageTableLevel::Level1 => true,
        PageTableLevel::Level2 => path_used(mem, a, e.raw_address_spec() as int, PageTableLevel::Level1, va),
        PageTableLevel::Level3 => path_used(mem, a, e.raw_address_spec() as int, PageTableLevel::Level2, va),
        PageTableLevel::Level4 => path_used(mem, a, e.raw_address_spec() as int, PageTableLevel::Level3, va),
    }
}

/// An entry index is below 512.
proof fn lemma_va_index_bound(level: PageTableLevel, va: u64)
    ensures
        0 <= va_index(level, va) < 512,
{
    let x = va >> level_shift(level);
    assert(x & 0x1FF < 512) by (bit_vector);
}

/// Whether the walk for `va` from the table at `table` of `level` reads the
/// word `w`.
pub open spec fn walk_reads(mem: Seq<u64>, table: int, level: PageTableLevel, va: u64, w: int) -> bool
    decreases level.number(),
{
    let e = entry_for(mem, table, level, va);
    ||| w == entry_word(table, level, va)
    ||| e.present() && !e.huge() && match level {
        PageTableLevel::Level1 => false,
        PageTableLevel::Level2 => walk_reads(mem, e.raw_address_spec() as int, PageTableLevel::Level1, va, w),
        PageTableLevel::Level3 => walk_reads(mem, e.raw_address_spec() as int, PageTableLevel::Level2, va, w),
        PageTableLevel::Level4 => walk_reads(mem, e.raw_address_spec() as int, PageTableLevel::Level3, va, w),
    }
}

/// A walk that visits only tables in frames in use in `a`, and does not read
/// the word `skip`, gives the same result in a memory that differs only in
/// frames not in use and at `skip`.
proof fn lemma_walk_unchanged(
    mem: Seq<u64>,
    mem2: Seq<u64>,
    a: Seq<bool>,
    skip: int,
    table: int,
    level: PageTableLevel,
    va: u64,
)
    requires
        walk_ok(mem, table, level, va),
        path_used(mem, a, table, level, va),
        !walk_reads(mem, table, level, va, skip),
        mem2.len() == mem.len(),
        forall|w: int| 0 <= w < mem.len() && frame_used(a, w * 8) && w != skip ==> #[trigger] mem2[w] == mem[w],
    ensures
        walk(mem2, table, level, va) == walk(mem, table, level, va),
        walk_ok(mem2, table, level, va),
    decreases level.number(),
{
    let w = entry_word(table, level, va);
    lemma_va_index_bound(level, va);
    assert(frame_used(a, w * 8));
    assert(mem2[w] == mem[w]);
    let next = entry_for(mem, table, level, va).raw_address_spec() as int;
    let e = entry_for(mem, table, level, va);
    if e.present() && !e.huge() {
        match level {
            PageTableLevel::Level1 => {},
            PageTableLevel::Level2 => lemma_walk_unchanged(mem, mem2, a, skip, next, PageTableLevel::Level1, va),
            PageTableLevel::Level3 => lemma_walk_unchanged(mem, mem2, a, skip, next, PageTableLevel::Level2, va),
            PageTableLevel::Level4 => lemma_walk_unchanged(mem, mem2, a, skip, next, PageTableLevel::Level3, va),
        }
    }
}

/// A walk that does not read the word `skip` gives the same result in a
/// memory that differs only at `skip`.
proof fn lemma_walk_unchanged_except(mem: Seq<u64>, mem2: Seq<u64>, skip: int, table: int, level: PageTableLevel, va: u64)
    requires
        walk_ok(mem, table, level, va),
        !walk_reads(mem, table, level, va, skip),
        mem2.len() == mem.len(),
        forall|w: int| 0 <= w < mem.len() && w != skip ==> #[trigger] mem2[w] == mem[w],
    ensures
        walk(mem2, table, level, va) == walk(mem, table, level, va),
    decreases level.number(),
{
    let w = entry_word(table, level, va);
    lemma_va_index_bound(level, va);
    assert(mem2[w] == mem[w]);
    let next = entry_for(mem, table, level, va).raw_address_spec() as int;
    let e = entry_for(mem, table, level, va);
    if e.present() && !e.huge() {
        match level {
            PageTableLevel::Level1 => {},
            PageTableLevel::Level2 => lemma_walk_unchanged_except(mem, mem2, skip, next, PageTableLevel::Level1, va),
            PageTableLevel::Level3 => lemma_walk_unchanged_except(mem, mem2, skip, next, PageTableLevel::Level2, va),
            PageTableLevel::Level4 => lemma_walk_unchanged_except(mem, mem2, skip, next, PageTableLevel::Level3, va),
        }
    }
}

/// The words of a page frame lie in that frame.
proof fn lemma_word_frame(w: int, frame: int)
    requires
        frame * 512 <= w < frame * 512 + 512,
    ensures
        (w * 8) / 4096 == frame,
{
    assert((w * 8) / 4096 == frame) by (nonlinear_arith)
        requires
            frame * 512 <= w < frame * 512 + 512,
    ;
}

/// The entry words of a table lie in the table's frame.
proof fn lemma_entry_word_frame(table: int, level: PageTableLevel, va: u64)
    requires
        0 <= table,
        table % 4096 == 0,
    ensures
        (entry_word(table, level, va) * 8) / 4096 == table / 4096,
        (table / 4096) * 512 <= entry_word(table, level, va) < (table / 4096) * 512 + 512,
{
    lemma_va_index_bound(level, va);
    let k = table / 4096;
    assert(table / 8 == k * 512);
    lemma_word_frame(entry_word(table, level, va), k);
}

/// Whether two virtual addresses lie in the same 4 KiB page.
pub open spec fn same_small_page(va: u64, va2: u64) -> bool {
    va >> 12u64 == va2 >> 12u64
}

/// A translation with its offset taken for `va` instead.
pub open spec fn with_offset(r: TranslateResult, va: u64) -> TranslateResult {
    match r {
        TranslateResult::Unmapped => TranslateResult::Unmapped,
        TranslateResult::Mapped(a) => TranslateResult::Mapped(
            AddressPageMapping { page: a.page, flags: a.flags, offset: (va as int % a.page.size.bytes()) as u64 },
        ),
    }
}

/// Addresses in the same 4 KiB page select the same entry at every level.
proof fn lemma_same_page_index(level: PageTableLevel, va: u64, va2: u64)
    requires
        same_small_page(va, va2),
    ensures
        va_index(level, va) == va_index(level, va2),
{
    match level {
        PageTableLevel::Level1 => {
            assert((va >> 12u64) & 0x1FF == (va2 >> 12u64) & 0x1FF) by (bit_vector)
                requires
                    va >> 12u64 == va2 >> 12u64,
            ;
        },
        PageTableLevel::Level2 => {
            assert((va >> 21u64) & 0x1FF == (va2 >> 21u64) & 0x1FF) by (bit_vector)
                requires
                    va >> 12u64 == va2 >> 12u64,
            ;
        },
        PageTableLevel::Level3 => {
            assert((va >> 30u64) & 0x1FF == (va2 >> 30u64) & 0x1FF) by (bit_vector)
                requires
                    va >> 12u64 == va2 >> 12u64,
            ;
        },
        PageTableLevel::Level4 => {
            assert((va >> 39u64) & 0x1FF == (va2 >> 39u64) & 0x1FF) by (bit_vector)
                requires
                    va >> 12u64 == va2 >> 12u64,
            ;
        },
    }
}

/// Addresses in the same 4 KiB page translate alike, each with its own
/// offset.
proof fn lemma_walk_same_page(mem: Seq<u64>, table: int, level: PageTableLevel, va: u64, va2: u64)
    requires
        same_small_page(va, va2),
    ensures
        walk(mem, table, level, va2) == with_offset(walk(mem, table, level, va), va2),
    decreases level.number(),
{
    lemma_same_page_index(level, va, va2);
    let e = entry_for(mem, table, level, va);
    let next = e.raw_address_spec() as int;
    assert(entry_for(mem, table, level, va2) == e);
    if e.present() && !e.huge() {
        match level {
            PageTableLevel::Level1 => {},
            PageTableLevel::Level2 => lemma_walk_same_page(mem, next, PageTableLevel::Level1, va, va2),
            PageTableLevel::Level3 => lemma_walk_same_page(mem, next, PageTableLevel::Level2, va, va2),
            PageTableLevel::Level4 => lemma_walk_same_page(mem, next, PageTableLevel::Level3, va, va2),
        }
    }
}

/// Mapping then unmapping: when `va` translates to the 4 KiB page `target`
/// (as `map_to` leaves it), unmapping gives back exactly `target`, and
/// clearing the entry that maps it (as `unmap` does) leaves `va` unmapped
/// with a walk that can still be made, so that unmapping it again finds the
/// page not mapped.
pub proof fn lemma_map_then_unmap(
    mem: Seq<u64>,
    root: int,
    va: u64,
    target: Page<KernPhysAddr>,
    flags: PageTableEntryFlags,
)
    requires
        walk_ok(mem, root, PageTableLevel::Level4, va),
        target.size == PageSize::Size4KiB,
        walk(mem, root, PageTableLevel::Level4, va) == TranslateResult::Mapped(
            AddressPageMapping {
                page: Page { start_addr: target.start_addr, size: PageSize::Size4KiB },
                flags: PageTableEntryFlags(flags.0 | PageTableEntryFlags::PRESENT),
                offset: (va as int % 4096) as u64,
            },
        ),
    ensures
        walk(mem, root, PageTableLevel::Level4, va) matches TranslateResult::Mapped(t) && t.page == target,
        walk(mem.update(leaf_word(mem, root, PageTableLevel::Level4, va), 0), root, PageTableLevel::Level4, va)
            is Unmapped,
        walk_ok(mem.update(leaf_word(mem, root, PageTableLevel::Level4, va), 0), root, PageTableLevel::Level4, va),
{
    lemma_clear_leaf_unmaps(mem, root, PageTableLevel::Level4, va);
}

/// One step of a walk for `va` through a present entry that points to the
/// next table: what the walk, its checks and its end are from the next
/// table on.
proof fn lemma_walk_step(
    mem: Seq<u64>,
    a: Seq<bool>,
    table: int,
    level: PageTableLevel,
    va: u64,
    next_level: PageTableLevel,
)
    requires
        entry_for(mem, table, level, va).present(),
        !entry_for(mem, table, level, va).huge(),
        level.lower() == Some(next_level),
    ensures
        ({
            let next = entry_for(mem, table, level, va).raw_address_spec() as int;
            &&& walk(mem, table, level, va) == walk(mem, next, next_level, va)
            &&& stop_level(mem, table, level, va) == stop_level(mem, next, next_level, va)
            &&& leaf_word(mem, table, level, va) == leaf_word(mem, next, next_level, va)
            &&& walk_ok(mem, table, level, va) ==> walk_ok(mem, next, next_level, va)
            &&& path_used(mem, a, table, level, va) ==> path_used(mem, a, next, next_level, va)
        }),
{
}

/// The entry where a walk that can be made stops lies in memory.
proof fn lemma_leaf_word_in(mem: Seq<u64>, table: int, level: PageTableLevel, va: u64)
    requires
        walk_ok(mem, table, level, va),
    ensures
        0 <= leaf_word(mem, table, level, va) < mem.len(),
    decreases level.number(),
{
    lemma_va_index_bound(level, va);
    let next = entry_for(mem, table, level, va).raw_address_spec() as int;
    let e = entry_for(mem, table, level, va);
    if e.present() && !e.huge() {
        match level {
            PageTableLevel::Level1 => {},
            PageTableLevel::Level2 => lemma_leaf_word_in(mem, next, PageTableLevel::Level1, va),
            PageTableLevel::Level3 => lemma_leaf_word_in(mem, next, PageTableLevel::Level2, va),
            PageTableLevel::Level4 => lemma_leaf_word_in(mem, next, PageTableLevel::Level3, va),
        }
    }
}

/// Clearing the entry where a mapped walk stops leaves the address
/// unmapped, and the walk can still be made.
proof fn lemma_clear_leaf_unmaps(mem: Seq<u64>, table: int, level: PageTableLevel, va: u64)
    requires
        walk_ok(mem, table, level, va),
        walk(mem, table, level, va) is Mapped,
    ensures
        walk(mem.update(leaf_word(mem, table, level, va), 0), table, level, va) is Unmapped,
        walk_ok(mem.update(leaf_word(mem, table, level, va), 0), table, level, va),
    decreases level.number(),
{
    let leaf = leaf_word(mem, table, level, va);
    let m2 = mem.update(leaf, 0);
    let w = entry_word(table, level, va);
    lemma_va_index_bound(level, va);
    lemma_leaf_word_in(mem, table, level, va);
    if w == leaf {
        let z = m2[w];
        assert(z & ALL_FLAGS & 1 != 1) by (bit_vector)
            requires
                z == 0,
        ;
    } else {
        assert(m2[w] == mem[w]);
        assert(entry_for(m2, table, level, va) == entry_for(mem, table, level, va));
        let next = entry_for(mem, table, level, va).raw_address_spec() as int;
        match level {
            PageTableLevel::Level1 => {},
            PageTableLevel::Level2 => lemma_clear_leaf_unmaps(mem, next, PageTableLevel::Level1, va),
            PageTableLevel::Level3 => lemma_clear_leaf_unmaps(mem, next, PageTableLevel::Level2, va),
            PageTableLevel::Level4 => lemma_clear_leaf_unmaps(mem, next, PageTableLevel::Level3, va),
        }
    }
}

/// Walking along a chain leads to what walking from its end leads to.
proof fn lemma_chain_walk(
    mem: Seq<u64>,
    a: Seq<bool>,
    table: int,
    level: PageTableLevel,
    va: u64,
    target: int,
    target_level: PageTableLevel,
)
    requires
        chain(mem, a, table, level, va, target, target_level),
    ensures
        walk(mem, table, level, va) == walk(mem, target, target_level, va),
    decreases level.number(),
{
    if !(table == target && level == target_level) {
        let next = entry_for(mem, table, level, va).raw_address_spec() as int;
        match level {
            PageTableLevel::Level1 => {},
            PageTableLevel::Level2 => lemma_chain_walk(mem, a, next, PageTableLevel::Level1, va, target, target_level),
            PageTableLevel::Level3 => lemma_chain_walk(mem, a, next, PageTableLevel::Level2, va, target, target_level),
            PageTableLevel::Level4 => lemma_chain_walk(mem, a, next, PageTableLevel::Level3, va, target, target_level),
        }
    }
}

/// A walk that can be made: along a chain, then through a level 1 entry
/// that maps a page in the kernel's mapping of physical memory.
proof fn lemma_chain_walk_ok(
    mem: Seq<u64>,
    a: Seq<bool>,
    table: int,
    level: PageTableLevel,
    va: u64,
    target: int,
)
    requires
        chain(mem, a, table, level, va, target, PageTableLevel::Level1),
        entry_for(mem, target, PageTableLevel::Level1, va).present(),
        !entry_for(mem, target, PageTableLevel::Level1, va).huge(),
        in_physical_mapping(entry_target_address(entry_for(mem, target, PageTableLevel::Level1, va))),
    ensures
        walk_ok(mem, table, level, va),
    decreases level.number(),
{
    if !(table == target && level == PageTableLevel::Level1) {
        let next = entry_for(mem, table, level, va).raw_address_spec() as int;
        match level {
            PageTableLevel::Level1 => {},
            PageTableLevel::Level2 => lemma_chain_walk_ok(mem, a, next, PageTableLevel::Level1, va, target),
            PageTableLevel::Level3 => lemma_chain_walk_ok(mem, a, next, PageTableLevel::Level2, va, target),
            PageTableLevel::Level4 => lemma_chain_walk_ok(mem, a, next, PageTableLevel::Level3, va, target),
        }
    }
}

/// A chain can be extended by a present entry at its end that points to a
/// table in a frame in use.
proof fn lemma_chain_extend(
    mem: Seq<u64>,
    a: Seq<bool>,
    table: int,
    level: PageTableLevel,
    va: u64,
    target: int,
    target_level: PageTableLevel,
    next_level: PageTableLevel,
)
    requires
        chain(mem, a, table, level, va, target, target_level),
        entry_for(mem, target, target_level, va).present(),
        !entry_for(mem, target, target_level, va).huge(),
        target_level.lower() == Some(next_level),
        frame_used(a, entry_for(mem, target, target_level, va).raw_address_spec() as int),
        table_in(mem, entry_for(mem, target, target_level, va).raw_address_spec() as int),
        in_physical_mapping(entry_target_address(entry_for(mem, target, target_level, va))),
    ensures
        chain(
            mem,
            a,
            table,
            level,
            va,
            entry_for(mem, target, target_level, va).raw_address_spec() as int,
            next_level,
        ),
    decreases level.number(),
{
    let t2 = entry_for(mem, target, target_level, va).raw_address_spec() as int;
    if table == target && level == target_level {
        match level {
            PageTableLevel::Level1 => {},
            PageTableLevel::Level2 => assert(chain(mem, a, t2, PageTableLevel::Level1, va, t2, next_level)),
            PageTableLevel::Level3 => assert(chain(mem, a, t2, PageTableLevel::Level2, va, t2, next_level)),
            PageTableLevel::Level4 => assert(chain(mem, a, t2, PageTableLevel::Level3, va, t2, next_level)),
        }
    } else {
        let next = entry_for(mem, table, level, va).raw_address_spec() as int;
        match level {
            PageTableLevel::Level1 => {},
            PageTableLevel::Level2 => lemma_chain_extend(mem, a, next, PageTableLevel::Level1, va, target, target_level, next_level),
            PageTableLevel::Level3 => lemma_chain_extend(mem, a, next, PageTableLevel::Level2, va, target, target_level, next_level),
            PageTableLevel::Level4 => lemma_chain_extend(mem, a, next, PageTableLevel::Level3, va, target, target_level, next_level),
        }
    }
}

/// A chain survives zeroing a frame not in use, and pages becoming used.
proof fn lemma_chain_zero_frame(
    mem: Seq<u64>,
    a: Seq<bool>,
    a2: Seq<bool>,
    frame: int,
    table: int,
    level: PageTableLevel,
    va: u64,
    target: int,
    target_level: PageTableLevel,
)
    requires
        chain(mem, a, table, level, va, target, target_level),
        0 <= frame < a.len(),
        !a[frame],
        a2.len() == a.len(),
        forall|i: int| 0 <= i < a.len() && a[i] ==> a2[i],
    ensures
        chain(zero_frame(mem, frame), a2, table, level, va, target, target_level),
    decreases level.number(),
{
    let z = zero_frame(mem, frame);
    let w = entry_word(table, level, va);
    lemma_va_index_bound(level, va);
    assert(table / 4096 != frame);
    assert(z[w] == mem[w]);
    if !(table == target && level == target_level) {
        let next = entry_for(mem, table, level, va).raw_address_spec() as int;
        match level {
            PageTableLevel::Level1 => {},
            PageTableLevel::Level2 => lemma_chain_zero_frame(mem, a, a2, frame, next, PageTableLevel::Level1, va, target, target_level),
            PageTableLevel::Level3 => lemma_chain_zero_frame(mem, a, a2, frame, next, PageTableLevel::Level2, va, target, target_level),
            PageTableLevel::Level4 => lemma_chain_zero_frame(mem, a, a2, frame, next, PageTableLevel::Level3, va, target, target_level),
        }
    }
}

/// A chain survives writing the entry at its end, if that entry was not
/// present.
proof fn lemma_chain_write_end(
    mem: Seq<u64>,
    a: Seq<bool>,
    table: int,
    level: PageTableLevel,
    va: u64,
    target: int,
    target_level: PageTableLevel,
    value: u64,
)
    requires
        chain(mem, a, table, level, va, target, target_level),
        table_in(mem, target),
        !entry_for(mem, target, target_level, va).present(),
    ensures
        chain(mem.update(entry_word(target, target_level, va), value), a, table, level, va, target, target_level),
    decreases level.number(),
{
    let m2 = mem.update(entry_word(target, target_level, va), value);
    lemma_va_index_bound(target_level, va);
    lemma_va_index_bound(level, va);
    if !(table == target && level == target_level) {
        assert(entry_word(table, level, va) != entry_word(target, target_level, va));
        let next = entry_for(mem, table, level, va).raw_address_spec() as int;
        match level {
            PageTableLevel::Level1 => {},
            PageTableLevel::Level2 => lemma_chain_write_end(mem, a, next, PageTableLevel::Level1, va, target, target_level, value),
            PageTableLevel::Level3 => lemma_chain_write_end(mem, a, next, PageTableLevel::Level2, va, target, target_level, value),
            PageTableLevel::Level4 => lemma_chain_write_end(mem, a, next, PageTableLevel::Level3, va, target, target_level, value),
        }
    }
}

/// Whether a top-half entry of the level 4 table can be filled in: if
/// present, it points to a level 3 table in the kernel's mapping of
/// physical memory.
pub open spec fn top_entry_ok(e: PageTableEntry) -> bool {
    e.present() ==> !e.huge() && in_physical_mapping(entry_target_address(e))
}

/// Whether the top-half entry at word `w` was filled in: it has exactly
/// the present and writable flags; an entry that was present keeps its
/// address; one that was zero now points to a table in a frame that was free
/// in `a` and is in use in `a2`, all of whose words are zero.
pub open spec fn top_entry_filled(m: Seq<u64>, m2: Seq<u64>, a: Seq<bool>, a2: Seq<bool>, w: int) -> bool {
    let e = PageTableEntry(m[w]);
    let e2 = m2[w];
    let t = (e2 & ADDRESS_MASK) as int;
    &&& e2 & ALL_FLAGS == 3
    &&& e.present() ==> e2 & ADDRESS_MASK == e.0 & ADDRESS_MASK
    &&& !e.present() && e.0 == 0 ==> {
        &&& t % 4096 == 0
        &&& 0 <= t / 4096 < a.len()
        &&& !a[t / 4096]
        &&& a2[t / 4096]
        &&& forall|k: int| t / 8 <= k < t / 8 + 512 ==> #[trigger] m2[k] == 0
    }
}

/// The number of entries from `i` to 511 of the table whose entries start at
/// word `base` that are not present.
pub open spec fn missing_from(mem: Seq<u64>, base: int, i: int) -> int
    decreases 512 - i,
{
    if i >= 512 {
        0
    } else {
        missing_from(mem, base, i + 1) + if PageTableEntry(mem[base + i]).present() {
            0int
        } else {
            1int
        }
    }
}

/// No count of missing entries is negative.
proof fn lemma_missing_from_nonneg(mem: Seq<u64>, base: int, i: int)
    ensures
        missing_from(mem, base, i) >= 0,
    decreases 512 - i,
{
    if i < 512 {
        lemma_missing_from_nonneg(mem, base, i + 1);
    }
}

/// The result of translating a virtual address.
#[derive(Debug, Clone, Copy)]
pub enum TranslateResult {
    Unmapped,
    Mapped(AddressPageMapping),
}

/// Result of mapping a virtual address to a page.
#[derive(Debug, Clone, Copy)]
pub struct AddressPageMapping {
    pub page: Page<KernPhysAddr>,
    pub flags: PageTableEntryFlags,
    pub offset: u64,
}

impl AddressPageMapping {
    /// The kernel address the virtual address translates to.
    pub fn address(&self) -> (r: KernPhysAddr)
        requires
            in_physical_mapping(self.page.start_addr.0 + self.offset),
        ensures
            r.0 == self.page.start_addr.0 + self.offset,
    {
        self.page.start_addr.add(self.offset)
    }
}

impl PhysicalMemory {
    /// Entry `index` of the table at physical address `table`.
    pub fn read_entry(&self, table: u64, index: PageTableIndex) -> (r: PageTableEntry)
        requires
            table_in(self.words@, table as int),
            index.0 < 512,
        ensures
            r.0 == self.words@[table / 8 + index.0],
    {
        let len = self.words.len();
        let word = (table / 8) as usize + index.0 as usize;
        PageTableEntry(self.words[word])
    }

    /// Sets entry `index` of the table at physical address `table`.
    pub fn write_entry(&mut self, table: u64, index: PageTableIndex, entry: PageTableEntry)
        requires
            table_in(old(self).words@, table as int),
            index.0 < 512,
        ensures
            final(self).words@ == old(self).words@.update(table / 8 + index.0, entry.0),
    {
        let len = self.words.len();
        let word = (table / 8) as usize + index.0 as usize;
        self.words.set(word, entry.0);
    }

    /// Sets the 512 words of the page frame at physical address `frame_addr`
    /// to zero.
    pub fn zero_page(&mut self, frame_addr: u64)
        requires
            table_in(old(self).words@, frame_addr as int),
        ensures
            final(self).words@ == zero_frame(old(self).words@, (frame_addr / 4096) as int),
    {
        let len = self.words.len();
        let base = (frame_addr / 8) as usize;
        assert(base == (frame_addr / 4096) * 512);
        let mut i: usize = 0;
        while i < 512
            invariant
                base == (frame_addr / 4096) * 512,
                base + 512 <= self.words@.len(),
                self.words@.len() == old(self).words@.len(),
                0 <= i <= 512,
                forall|w: int|
                    0 <= w < self.words@.len() ==> #[trigger] self.words@[w] == if base <= w < base + i {
                        0u64
                    } else {
                        old(self).words@[w]
                    },
            decreases 512 - i,
        {
            self.words.set(base + i, 0);
            i += 1;
        }
        assert(self.words@ =~= zero_frame(old(self).words@, (frame_addr / 4096) as int));
    }

    /// Allocates a zeroed page for a child table and points entry `index` of
    /// the table at `table` to it with `flags`, marked present. Gives the
    /// physical address of the child table.
    pub fn allocate_and_map_child_table(
        &mut self,
        table: u64,
        index: PageTableIndex,
        allocator: &mut PhysicalMemoryAllocator,
        flags: PageTableEntryFlags,
    ) -> (r: Result<PhysAddr, AllocError>)
        requires
            table_in(old(self).words@, table as int),
            index.0 < 512,
            old(allocator).wf(),
            old(allocator).allocator@.len() * 512 <= old(self).words@.len(),
        ensures
            final(allocator).wf(),
            match r {
                Ok(child) => {
                    let frame = child.0 / 4096;
                    let z = zero_frame(old(self).words@, frame as int);
                    let w = table / 8 + index.0;
                    &&& child.0 % 4096 == 0
                    &&& child.0 < 0x10_0000_0000_0000
                    &&& is_first_free_run(old(allocator).allocator@, frame as int, 1)
                    &&& final(allocator).allocator@ == old(allocator).allocator@.update(frame as int, true)
                    &&& final(self).words@ == z.update(w, ((z[w] | child.0) & ADDRESS_MASK) | (flags.0 | PageTableEntryFlags::PRESENT))
                },
                Err(_) => {
                    &&& has_no_free_run(old(allocator).allocator@, 1)
                    &&& final(allocator).allocator@ == old(allocator).allocator@
                    &&& final(self).words@ == old(self).words@
                },
            },
    {
        let new_table_page = match allocator.allocate_page() {
            Ok(page) => page,
            Err(e) => return Err(e),
        };
        let ghost s = choose|s: int|
            {
                &&& is_first_free_run(old(allocator).allocator@, s, 1)
                &&& allocator.allocator@ == old(allocator).allocator@.update(s, true)
                &&& new_table_page.start_addr.0 == page_address(s)
                &&& new_table_page.size == PageSize::Size4KiB
            };
        proof {
            let n = old(allocator).allocator@.len();
            assert(s * 4096 < KERNEL_PHYSICAL_MAPPING_END - KERNEL_PHYSICAL_MAPPING_START) by (nonlinear_arith)
                requires
                    0 <= s < n,
                    n * 4096 <= KERNEL_PHYSICAL_MAPPING_END - KERNEL_PHYSICAL_MAPPING_START,
            ;
            assert(s * 4096 / 8 + 512 <= n * 512) by (nonlinear_arith)
                requires
                    0 <= s < n,
            ;
        }
        let child = new_table_page.start_addr().to_phys_addr();
        assert(child.0 == s * 4096);
        let c = child.0;
        assert(c & !ADDRESS_MASK == 0 && c < 0x10_0000_0000_0000) by (bit_vector)
            requires
                c % 4096 == 0,
                c < 0x3777_7777_7778,
        ;
        self.zero_page(c);
        let mut entry = self.read_entry(table, index);
        entry.set_address(child);
        entry.set_flags(flags.union(PageTableEntryFlags::PRESENT));
        self.write_entry(table, index, entry);
        Ok(child)
    }
}

/// The level 4 page table, by its physical address.
#[derive(Debug, Clone, Copy)]
pub struct Level4PageTable {
    pub table: PhysAddr,
}

/// Target of the `map_to` operation.
#[derive(Debug, Clone, Copy)]
pub enum MapTarget {
    /// Map the virtual page to the given physical page that has already been
    /// allocated.
    ExistingPhysPage(Page<KernPhysAddr>),
    /// Allocate a new physical page and map the virtual page to it.
    NewPhysPage,
}

/// Whether a virtual page of `size` can be mapped to `target`: an existing
/// page must have that size and an address that an entry can hold; a new
/// page is always 4 KiB.
pub open spec fn map_target_ok(target: MapTarget, size: PageSize) -> bool {
    match target {
        MapTarget::ExistingPhysPage(p) => {
            &&& p.size == size
            &&& in_physical_mapping(p.start_addr.0 as int)
            &&& ((p.start_addr.0 - KERNEL_PHYSICAL_MAPPING_START) as u64) & !ADDRESS_MASK == 0
        },
        MapTarget::NewPhysPage => size == PageSize::Size4KiB,
    }
}

/// The pages that mapping `va` takes from the allocator: one child table
/// for each level below the one where the walk stops, and the target page
/// if it is new.
pub open spec fn pages_needed(mem: Seq<u64>, table: int, va: u64, target: MapTarget) -> int {
    stop_level(mem, table, PageTableLevel::Level4, va).number() - 1 + if target is NewPhysPage {
        1int
    } else {
        0int
    }
}

/// Whether word `w` of `mem` holds the entry that was `old` before it was
/// pointed at `addr` with `flags`, marked present: the old address bits with
/// `addr` ORed in, and the flags.
pub open spec fn entry_pointed(mem: Seq<u64>, w: int, old: u64, addr: u64, flags: u64) -> bool {
    &&& 0 <= w < mem.len()
    &&& mem[w] == ((old | addr) & ADDRESS_MASK) | (flags | PageTableEntryFlags::PRESENT)
}

/// Whether `first` and `last` are the addresses of page frames that were
/// free in `a`, the entry at `leaf` of `m` was pointed at `first` with the
/// present, writable and user-accessible bits of `flags`, and the level 1
/// entry for `va` in the table at `last` (zero before) was pointed at
/// `phys` with `flags`.
pub open spec fn new_tables_linked(
    m: Seq<u64>,
    a: Seq<bool>,
    m2: Seq<u64>,
    leaf: int,
    va: u64,
    phys: u64,
    flags: u64,
    first: int,
    last: int,
) -> bool {
    &&& first % 4096 == 0
    &&& 0 <= first / 4096 < a.len()
    &&& !a[first / 4096]
    &&& last % 4096 == 0
    &&& 0 <= last / 4096 < a.len()
    &&& !a[last / 4096]
    &&& entry_pointed(
        m2,
        leaf,
        m[leaf],
        first as u64,
        flags & (PageTableEntryFlags::PRESENT | PageTableEntryFlags::WRITABLE | PageTableEntryFlags::USER_ACCESSIBLE),
    )
    &&& entry_pointed(m2, entry_word(last, PageTableLevel::Level1, va), 0, phys, flags)
}

/// The entries that mapping `va` to `phys` with `flags` writes, from `m`
/// and `a` to `m2`. Where the walk for `va` stops at level 1, its entry
/// there is pointed at `phys` with `flags`. Where it stops higher up, that
/// entry is pointed at a new table, and the level 1 entry for `va` of the
/// last new table is pointed at `phys` with `flags`.
pub open spec fn mapping_written(m: Seq<u64>, a: Seq<bool>, m2: Seq<u64>, root: int, va: u64, phys: u64, flags: u64) -> bool {
    let leaf = leaf_word(m, root, PageTableLevel::Level4, va);
    if stop_level(m, root, PageTableLevel::Level4, va) == PageTableLevel::Level1 {
        entry_pointed(m2, leaf, m[leaf], phys, flags)
    } else {
        exists|first: int, last: int| #[trigger] new_tables_linked(m, a, m2, leaf, va, phys, flags, first, last)
    }
}

impl MapTarget {
    /// The physical page to map to: the existing page, or a newly allocated
    /// one.
    pub fn get_target_page(self, allocator: &mut PhysicalMemoryAllocator, target_page_size: PageSize) -> (r:
        Result<Page<KernPhysAddr>, AllocError>)
        requires
            old(allocator).wf(),
            match self {
                MapTarget::ExistingPhysPage(p) => p.size == target_page_size,
                MapTarget::NewPhysPage => target_page_size == PageSize::Size4KiB,
            },
        ensures
            final(allocator).wf(),
            match self {
                MapTarget::ExistingPhysPage(p) => {
                    &&& r == Ok::<Page<KernPhysAddr>, AllocError>(p)
                    &&& final(allocator).allocator@ == old(allocator).allocator@
                },
                MapTarget::NewPhysPage => match r {
                    Ok(page) => exists|s: int|
                        {
                            &&& is_first_free_run(old(allocator).allocator@, s, 1)
                            &&& final(allocator).allocator@ == old(allocator).allocator@.update(s, true)
                            &&& page.start_addr.0 == page_address(s)
                            &&& page.size == PageSize::Size4KiB
                        },
                    Err(_) => {
                        &&& has_no_free_run(old(allocator).allocator@, 1)
                        &&& final(allocator).allocator@ == old(allocator).allocator@
                    },
                },
            },
    {
        match self {
            MapTarget::ExistingPhysPage(page) => Ok(page),
            MapTarget::NewPhysPage => allocator.allocate_page(),
        }
    }
}

/// Mapping failed: a page could not be allocated, or the virtual page is
/// already mapped.
#[derive(Debug, Clone, Copy)]
pub enum MapError {
    PhysicalPageAllocationFailed(AllocError),
    PageAlreadyMapped { existing_target: Page<KernPhysAddr>, flags: PageTableEntryFlags },
}

/// Unmapping failed: the page is not mapped, or is mapped by a page of
/// another size.
#[derive(Debug, Clone, Copy, PartialEq, Eq, Structural)]
pub enum UnmapError {
    PageNotMapped,
    PageWrongSize { expected_size: PageSize, actual_size: PageSize },
}

/// Setting flags failed: the page is not mapped.
#[derive(Debug, Clone, Copy, PartialEq, Eq, Structural)]
pub enum SetFlagsError {
    PageNotMapped,
}

impl Level4PageTable {
    /// The physical address of the level 4 table.
    pub fn physical_address(&self) -> (r: PhysAddr)
        ensures
            r == self.table,
    {
        self.table
    }

    /// Translates a virtual address to the physical page mapped by the page
    /// table, with the address's offset in that page.
    pub fn translate_address(&self, mem: &PhysicalMemory, addr: VirtAddr) -> (r: TranslateResult)
        requires
            walk_ok(mem.words@, self.table.0 as int, PageTableLevel::Level4, addr.0),
        ensures
            r == walk(mem.words@, self.table.0 as int, PageTableLevel::Level4, addr.0),
    {
        let ghost m = mem.words@;
        let ghost root = self.table.0 as int;
        let mut current_table: u64 = self.table.0;
        let mut current_level = PageTableLevel::Level4;
        loop
            invariant
                m == mem.words@,
                root == self.table.0 as int,
                walk_ok(m, current_table as int, current_level, addr.0),
                walk(m, root, PageTableLevel::Level4, addr.0) == walk(m, current_table as int, current_level, addr.0),
            decreases current_level.number(),
        {
            let index = PageTableIndex::from_address(current_level, addr);
            let entry = mem.read_entry(current_table, index);
            assert(entry == entry_for(m, current_table as int, current_level, addr.0));
            match entry.target(current_level) {
                PageTableTarget::Unmapped => {
                    assert(!entry.present());
                    return TranslateResult::Unmapped;
                },
                PageTableTarget::Page { page, flags } => {
                    let offset = addr.0 % page.size().size_bytes() as u64;
                    return TranslateResult::Mapped(AddressPageMapping { page, flags, offset });
                },
                PageTableTarget::NextTable { level, table } => {
                    current_table = table.to_phys_addr().0;
                    current_level = level;
                },
            }
        }
    }

    /// Changes the flags of the entry that maps `page`, keeping the address
    /// it points to.
    pub fn set_flags(&self, mem: &mut PhysicalMemory, page: Page<VirtAddr>, flags: PageTableEntryFlags) -> (r:
        Result<(), SetFlagsError>)
        requires
            walk_ok(old(mem).words@, self.table.0 as int, PageTableLevel::Level4, page.start_addr.0),
        ensures
            ({
                let m = old(mem).words@;
                let va = page.start_addr.0;
                let leaf = leaf_word(m, self.table.0 as int, PageTableLevel::Level4, va);
                match walk(m, self.table.0 as int, PageTableLevel::Level4, va) {
                    TranslateResult::Unmapped => {
                        &&& r == Err::<(), SetFlagsError>(SetFlagsError::PageNotMapped)
                        &&& final(mem).words@ == m
                    },
                    TranslateResult::Mapped(_) => {
                        &&& r == Ok::<(), SetFlagsError>(())
                        &&& final(mem).words@ == m.update(leaf, (m[leaf] & ADDRESS_MASK) | flags.0)
                    },
                }
            }),
            forall|va2: u64|
                walk_ok(old(mem).words@, self.table.0 as int, PageTableLevel::Level4, va2) && !walk_reads(
                    old(mem).words@,
                    self.table.0 as int,
                    PageTableLevel::Level4,
                    va2,
                    leaf_word(old(mem).words@, self.table.0 as int, PageTableLevel::Level4, page.start_addr.0),
                ) ==> #[trigger] walk(final(mem).words@, self.table.0 as int, PageTableLevel::Level4, va2) == walk(
                    old(mem).words@,
                    self.table.0 as int,
                    PageTableLevel::Level4,
                    va2,
                ),
    {
        let ghost m = mem.words@;
        let ghost root = self.table.0 as int;
        let ghost va = page.start_addr.0;
        let addr = page.start_addr();
        let mut current_table: u64 = self.table.0;
        let mut current_level = PageTableLevel::Level4;
        loop
            invariant
                m == mem.words@,
                m == old(mem).words@,
                root == self.table.0 as int,
                va == addr.0,
                va == page.start_addr.0,
                walk_ok(m, root, PageTableLevel::Level4, va),
                walk_ok(m, current_table as int, current_level, va),
                walk(m, root, PageTableLevel::Level4, va) == walk(m, current_table as int, current_level, va),
                leaf_word(m, root, PageTableLevel::Level4, va) == leaf_word(m, current_table as int, current_level, va),
            decreases current_level.number(),
        {
            let index = PageTableIndex::from_address(current_level, addr);
            let entry = mem.read_entry(current_table, index);
            assert(entry == entry_for(m, current_table as int, current_level, va));
            match entry.target(current_level) {
                PageTableTarget::Unmapped => {
                    assert(!entry.present());
                    return Err(SetFlagsError::PageNotMapped);
                },
                PageTableTarget::Page { .. } => {
                    let mut updated = entry;
                    updated.set_flags(flags);
                    mem.write_entry(current_table, index, updated);
                    proof {
                        lemma_leaf_word_in(m, root, PageTableLevel::Level4, va);
                        assert forall|va2: u64|
                            walk_ok(m, root, PageTableLevel::Level4, va2) && !walk_reads(
                                m,
                                root,
                                PageTableLevel::Level4,
                                va2,
                                leaf_word(m, root, PageTableLevel::Level4, va),
                            ) implies #[trigger] walk(mem.words@, root, PageTableLevel::Level4, va2) == walk(
                            m,
                            root,
                            PageTableLevel::Level4,
                            va2,
                        ) by {
                            lemma_walk_unchanged_except(m, mem.words@, leaf_word(m, root, PageTableLevel::Level4, va), root, PageTableLevel::Level4, va2);
                        }
                    }
                    return Ok(());
                },
                PageTableTarget::NextTable { level, table } => {
                    current_table = table.to_phys_addr().0;
                    current_level = level;
                },
            }
        }
    }

    /// Unmaps a virtual page and returns the physical page it was mapped
    /// to, freeing that page if `free_physical_page` is set.
    pub fn unmap(
        &self,
        mem: &mut PhysicalMemory,
        allocator: &mut PhysicalMemoryAllocator,
        page: Page<VirtAddr>,
        free_physical_page: bool,
    ) -> (r: Result<Page<KernPhysAddr>, UnmapError>)
        requires
            walk_ok(old(mem).words@, self.table.0 as int, PageTableLevel::Level4, page.start_addr.0),
            old(allocator).wf(),
            free_physical_page ==> match walk(
                old(mem).words@,
                self.table.0 as int,
                PageTableLevel::Level4,
                page.start_addr.0,
            ) {
                TranslateResult::Mapped(t) => t.page.size == page.size ==> old(allocator).can_free_page(t.page),
                TranslateResult::Unmapped => true,
            },
        ensures
            final(allocator).wf(),
            walk_ok(final(mem).words@, self.table.0 as int, PageTableLevel::Level4, page.start_addr.0),
            ({
                let m = old(mem).words@;
                let va = page.start_addr.0;
                let leaf = leaf_word(m, self.table.0 as int, PageTableLevel::Level4, va);
                match walk(m, self.table.0 as int, PageTableLevel::Level4, va) {
                    TranslateResult::Unmapped => {
                        &&& r == Err::<Page<KernPhysAddr>, UnmapError>(UnmapError::PageNotMapped)
                        &&& final(mem).words@ == m
                        &&& final(allocator).allocator@ == old(allocator).allocator@
                    },
                    TranslateResult::Mapped(t) => if t.page.size != page.size {
                        &&& r == Err::<Page<KernPhysAddr>, UnmapError>(
                            UnmapError::PageWrongSize { expected_size: page.size, actual_size: t.page.size },
                        )
                        &&& final(mem).words@ == m
                        &&& final(allocator).allocator@ == old(allocator).allocator@
                    } else {
                        &&& r == Ok::<Page<KernPhysAddr>, UnmapError>(t.page)
                        &&& final(mem).words@ == m.update(leaf, 0)
                        &&& walk(final(mem).words@, self.table.0 as int, PageTableLevel::Level4, va) is Unmapped
                        &&& forall|va2: u64|
                            walk_ok(m, self.table.0 as int, PageTableLevel::Level4, va2) && !walk_reads(
                                m,
                                self.table.0 as int,
                                PageTableLevel::Level4,
                                va2,
                                leaf,
                            ) ==> #[trigger] walk(final(mem).words@, self.table.0 as int, PageTableLevel::Level4, va2)
                                == walk(m, self.table.0 as int, PageTableLevel::Level4, va2)
                        &&& final(allocator).allocator@ == if free_physical_page {
                            set_range(old(allocator).allocator@, PhysicalMemoryAllocator::page_index(t.page), 1, false)
                        } else {
                            old(allocator).allocator@
                        }
                    },
                }
            }),
    {
        let ghost m = mem.words@;
        let ghost root = self.table.0 as int;
        let ghost va = page.start_addr.0;
        let addr = page.start_addr();
        let mut current_table: u64 = self.table.0;
        let mut current_level = PageTableLevel::Level4;
        loop
            invariant
                m == mem.words@,
                m == old(mem).words@,
                *allocator == *old(allocator),
                allocator.wf(),
                free_physical_page ==> match walk(m, root, PageTableLevel::Level4, va) {
                    TranslateResult::Mapped(t) => t.page.size == page.size ==> allocator.can_free_page(t.page),
                    TranslateResult::Unmapped => true,
                },
                root == self.table.0 as int,
                va == addr.0,
                va == page.start_addr.0,
                walk_ok(m, root, PageTableLevel::Level4, va),
                walk_ok(m, current_table as int, current_level, va),
                walk(m, root, PageTableLevel::Level4, va) == walk(m, current_table as int, current_level, va),
                leaf_word(m, root, PageTableLevel::Level4, va) == leaf_word(m, current_table as int, current_level, va),
            decreases current_level.number(),
        {
            let index = PageTableIndex::from_address(current_level, addr);
            let entry = mem.read_entry(current_table, index);
            assert(entry == entry_for(m, current_table as int, current_level, va));
            match entry.target(current_level) {
                PageTableTarget::Unmapped => {
                    assert(!entry.present());
                    return Err(UnmapError::PageNotMapped);
                },
                PageTableTarget::Page { page: target_page, flags: _ } => {
                    if target_page.size() != page.size() {
                        return Err(
                            UnmapError::PageWrongSize { expected_size: page.size(), actual_size: target_page.size() },
                        );
                    }
                    let mut cleared = entry;
                    cleared.clear();
                    mem.write_entry(current_table, index, cleared);
                    proof {
                        lemma_clear_leaf_unmaps(m, root, PageTableLevel::Level4, va);
                        lemma_leaf_word_in(m, root, PageTableLevel::Level4, va);
                        let leaf = leaf_word(m, root, PageTableLevel::Level4, va);
                        assert forall|va2: u64|
                            walk_ok(m, root, PageTableLevel::Level4, va2) && !walk_reads(m, root, PageTableLevel::Level4, va2, leaf)
                                implies #[trigger] walk(mem.words@, root, PageTableLevel::Level4, va2) == walk(
                            m,
                            root,
                            PageTableLevel::Level4,
                            va2,
                        ) by {
                            lemma_walk_unchanged_except(m, mem.words@, leaf, root, PageTableLevel::Level4, va2);
                        }
                    }
                    if free_physical_page {
                        allocator.free_page(target_page);
                    }
                    return Ok(target_page);
                },
                PageTableTarget::NextTable { level, table } => {
                    current_table = table.to_phys_addr().0;
                    current_level = level;
                },
            }
        }
    }

    /// Maps the virtual page `page` to `map_target` with `flags`, creating
    /// the missing intermediate tables (with the present, writable and
    /// user-accessible bits of `flags`). The mapping is always made by a
    /// level 1 entry.
    pub fn map_to(
        &self,
        mem: &mut PhysicalMemory,
        allocator: &mut PhysicalMemoryAllocator,
        page: Page<VirtAddr>,
        map_target: MapTarget,
        flags: PageTableEntryFlags,
    ) -> (r: Result<Page<KernPhysAddr>, MapError>)
        requires
            old(allocator).wf(),
            old(allocator).allocator@.len() * 512 <= old(mem).words@.len(),
            walk_ok(old(mem).words@, self.table.0 as int, PageTableLevel::Level4, page.start_addr.0),
            path_used(
                old(mem).words@,
                old(allocator).allocator@,
                self.table.0 as int,
                PageTableLevel::Level4,
                page.start_addr.0,
            ),
            walk(old(mem).words@, self.table.0 as int, PageTableLevel::Level4, page.start_addr.0) is Unmapped
                ==> map_target_ok(map_target, page.size),
        ensures
            final(allocator).wf(),
            final(mem).words@.len() == old(mem).words@.len(),
            final(allocator).allocator@.len() == old(allocator).allocator@.len(),
            forall|i: int|
                0 <= i < old(allocator).allocator@.len() && old(allocator).allocator@[i]
                    ==> #[trigger] final(allocator).allocator@[i],
            forall|w: int|
                0 <= w < old(mem).words@.len() && frame_used(old(allocator).allocator@, w * 8) && w != leaf_word(
                    old(mem).words@,
                    self.table.0 as int,
                    PageTableLevel::Level4,
                    page.start_addr.0,
                ) ==> #[trigger] final(mem).words@[w] == old(mem).words@[w],
            forall|va2: u64|
                walk_ok(old(mem).words@, self.table.0 as int, PageTableLevel::Level4, va2) && path_used(
                    old(mem).words@,
                    old(allocator).allocator@,
                    self.table.0 as int,
                    PageTableLevel::Level4,
                    va2,
                ) && !walk_reads(
                    old(mem).words@,
                    self.table.0 as int,
                    PageTableLevel::Level4,
                    va2,
                    leaf_word(old(mem).words@, self.table.0 as int, PageTableLevel::Level4, page.start_addr.0),
                ) ==> #[trigger] walk(final(mem).words@, self.table.0 as int, PageTableLevel::Level4, va2) == walk(
                    old(mem).words@,
                    self.table.0 as int,
                    PageTableLevel::Level4,
                    va2,
                ),
            ({
                let m = old(mem).words@;
                let a = old(allocator).allocator@;
                let a2 = final(allocator).allocator@;
                let root = self.table.0 as int;
                let va = page.start_addr.0;
                match walk(m, root, PageTableLevel::Level4, va) {
                    TranslateResult::Mapped(t) => {
                        &&& (r matches Err(MapError::PageAlreadyMapped { existing_target, flags: f })
                            && existing_target == t.page && f == t.flags)
                        &&& final(mem).words@ == m
                        &&& a2 == a
                    },
                    TranslateResult::Unmapped => {
                        &&& r is Ok <==> free_count(a) >= pages_needed(m, root, va, map_target)
                        &&& r is Ok ==> free_count(a2) + pages_needed(m, root, va, map_target) == free_count(a)
                        &&& r is Err ==> (r matches Err(MapError::PhysicalPageAllocationFailed(_)) && has_no_free_run(a2, 1))
                        &&& r matches Ok(target) ==> match map_target {
                            MapTarget::ExistingPhysPage(p) => target == p,
                            MapTarget::NewPhysPage => {
                                let frame = PhysicalMemoryAllocator::page_index(target);
                                &&& target.size == PageSize::Size4KiB
                                &&& target.start_addr.0 == page_address(frame)
                                &&& !a[frame]
                                &&& a2[frame]
                            },
                        }
                        &&& r matches Ok(target) ==> mapping_written(
                            m,
                            a,
                            final(mem).words@,
                            root,
                            va,
                            (target.start_addr.0 - KERNEL_PHYSICAL_MAPPING_START) as u64,
                            flags.0,
                        )
                        &&& r matches Ok(target) ==> ((m[leaf_word(m, root, PageTableLevel::Level4, va)] & ADDRESS_MASK == 0
                            && flags.0 & ADDRESS_MASK == 0 && flags.0 & PageTableEntryFlags::HUGE_PAGE == 0)
                            ==> walk_ok(final(mem).words@, root, PageTableLevel::Level4, va)
                            && forall|va2: u64| #[trigger] same_small_page(va, va2) ==> walk(
                            final(mem).words@,
                            root,
                            PageTableLevel::Level4,
                            va2,
                        ) == TranslateResult::Mapped(
                            AddressPageMapping {
                                page: Page { start_addr: target.start_addr, size: PageSize::Size4KiB },
                                flags: PageTableEntryFlags(flags.0 | PageTableEntryFlags::PRESENT),
                                offset: (va2 as int % 4096) as u64,
                            },
                        ))
                    },
                }
            }),
    {
        let ghost m0 = mem.words@;
        let ghost a0 = allocator.allocator@;
        let ghost root = self.table.0 as int;
        let ghost va = page.start_addr.0;
        let ghost stop = stop_level(m0, root, PageTableLevel::Level4, va);
        let ghost leaf0 = leaf_word(m0, root, PageTableLevel::Level4, va);
        let ghost zero_end = m0[leaf0] & ADDRESS_MASK == 0;
        let ghost mut fresh = false;
        let ghost mut first_table: int = 0;
        let addr = page.start_addr();
        let parent_flags = flags.intersection(
            PageTableEntryFlags::PRESENT | PageTableEntryFlags::WRITABLE | PageTableEntryFlags::USER_ACCESSIBLE,
        );
        let mut current_table: u64 = self.table.0;
        let mut current_level = PageTableLevel::Level4;
        loop
            invariant
                m0 == old(mem).words@,
                a0 == old(allocator).allocator@,
                root == self.table.0 as int,
                va == addr.0,
                va == page.start_addr.0,
                stop == stop_level(m0, root, PageTableLevel::Level4, va),
                leaf0 == leaf_word(m0, root, PageTableLevel::Level4, va),
                zero_end == (m0[leaf0] & ADDRESS_MASK == 0),
                forall|w2: int|
                    0 <= w2 < m0.len() && frame_used(a0, w2 * 8) && w2 != leaf0 ==> #[trigger] mem.words@[w2]
                        == m0[w2],
                parent_flags.0 == flags.0 & (PageTableEntryFlags::PRESENT | PageTableEntryFlags::WRITABLE
                    | PageTableEntryFlags::USER_ACCESSIBLE),
                walk(m0, root, PageTableLevel::Level4, va) is Unmapped ==> map_target_ok(map_target, page.size),
                allocator.wf(),
                mem.words@.len() == m0.len(),
                allocator.allocator@.len() == a0.len(),
                a0.len() * 512 <= m0.len(),
                forall|i: int| 0 <= i < a0.len() && a0[i] ==> #[trigger] allocator.allocator@[i],
                table_in(mem.words@, current_table as int),
                !fresh ==> {
                    &&& mem.words@ == m0
                    &&& allocator.allocator@ == a0
                    &&& walk_ok(m0, current_table as int, current_level, va)
                    &&& walk(m0, root, PageTableLevel::Level4, va) == walk(m0, current_table as int, current_level, va)
                    &&& stop == stop_level(m0, current_table as int, current_level, va)
                    &&& leaf_word(m0, root, PageTableLevel::Level4, va) == leaf_word(m0, current_table as int, current_level, va)
                    &&& path_used(m0, a0, current_table as int, current_level, va)
                    &&& chain(m0, a0, root, PageTableLevel::Level4, va, current_table as int, current_level)
                },
                fresh ==> {
                    &&& 0 <= current_table / 4096 < a0.len()
                    &&& !a0[(current_table / 4096) as int]
                    &&& walk(m0, root, PageTableLevel::Level4, va) is Unmapped
                    &&& current_level.number() < stop.number()
                    &&& frame_used(allocator.allocator@, current_table as int)
                    &&& mem.words@[entry_word(current_table as int, current_level, va)] == 0
                    &&& free_count(allocator.allocator@) + (stop.number() - current_level.number()) == free_count(a0)
                    &&& zero_end ==> chain(mem.words@, allocator.allocator@, root, PageTableLevel::Level4, va, current_table as int, current_level)
                    &&& first_table % 4096 == 0
                    &&& 0 <= first_table / 4096 < a0.len()
                    &&& !a0[first_table / 4096]
                    &&& frame_used(a0, leaf0 * 8)
                    &&& entry_pointed(mem.words@, leaf0, m0[leaf0], first_table as u64, parent_flags.0)
                },
            decreases current_level.number(),
        {
            let index = PageTableIndex::from_address(current_level, addr);
            let entry = mem.read_entry(current_table, index);
            let ghost w = entry_word(current_table as int, current_level, va);
            assert(entry == entry_for(mem.words@, current_table as int, current_level, va));
            proof {
                if fresh {
                    let z = entry.0;
                    assert(z & ALL_FLAGS & 1 != 1) by (bit_vector)
                        requires
                            z == 0,
                    ;
                }
            }
            match entry.target(current_level) {
                PageTableTarget::Unmapped => {
                    let ghost mem_prev = mem.words@;
                    let ghost a_prev = allocator.allocator@;
                    proof {
                        lemma_va_index_bound(current_level, va);
                        assert(walk(m0, root, PageTableLevel::Level4, va) is Unmapped);
                        assert(frame_used(a_prev, current_table as int));
                        assert(free_count(a_prev) + (stop.number() - current_level.number()) == free_count(a0));
                        assert(zero_end ==> mem_prev[w] & ADDRESS_MASK == 0) by {
                            if fresh {
                                let z0 = mem_prev[w];
                                assert(z0 & 0x000f_ffff_ffff_f000u64 == 0) by (bit_vector)
                                    requires
                                        z0 == 0,
                                ;
                            }
                        }
                        assert(zero_end ==> chain(mem_prev, a_prev, root, PageTableLevel::Level4, va, current_table as int, current_level));
                        assert(!entry_for(mem_prev, current_table as int, current_level, va).present());
                        assert(forall|i: int| 0 <= i < a0.len() && a0[i] ==> #[trigger] a_prev[i]);
                        lemma_entry_word_frame(current_table as int, current_level, va);
                        assert(!fresh ==> w == leaf0);
                        assert(fresh ==> !frame_used(a0, w * 8));
                    }
                    match current_level.next_lower_level() {
                        None => {
                            let target_page = match map_target.get_target_page(allocator, page.size()) {
                                Ok(p) => p,
                                Err(e) => {
                                    proof {
                                        lemma_free_count_zero(allocator.allocator@);
                                        assert forall|va2: u64|
                                            walk_ok(m0, root, PageTableLevel::Level4, va2) && path_used(
                                                m0,
                                                a0,
                                                root,
                                                PageTableLevel::Level4,
                                                va2,
                                            ) && !walk_reads(m0, root, PageTableLevel::Level4, va2, leaf0) implies #[trigger] walk(
                                            mem.words@,
                                            root,
                                            PageTableLevel::Level4,
                                            va2,
                                        ) == walk(m0, root, PageTableLevel::Level4, va2) by {
                                            lemma_walk_unchanged(m0, mem.words@, a0, leaf0, root, PageTableLevel::Level4, va2);
                                        }
                                    }
                                    return Err(MapError::PhysicalPageAllocationFailed(e));
                                },
                            };
                            let ghost phys = (target_page.start_addr.0 - KERNEL_PHYSICAL_MAPPING_START) as u64;
                            proof {
                                match map_target {
                                    MapTarget::ExistingPhysPage(p) => {},
                                    MapTarget::NewPhysPage => {
                                        let s = choose|s: int|
                                            {
                                                &&& is_first_free_run(a_prev, s, 1)
                                                &&& allocator.allocator@ == a_prev.update(s, true)
                                                &&& target_page.start_addr.0 == page_address(s)
                                                &&& target_page.size == PageSize::Size4KiB
                                            };
                                        let n = a_prev.len();
                                        assert(s * 4096 < KERNEL_PHYSICAL_MAPPING_END - KERNEL_PHYSICAL_MAPPING_START)
                                            by (nonlinear_arith)
                                            requires
                                                0 <= s < n,
                                                n * 4096 <= KERNEL_PHYSICAL_MAPPING_END - KERNEL_PHYSICAL_MAPPING_START,
                                        ;
                                        assert((s * 4096) % 4096 == 0) by (nonlinear_arith);
                                        assert(phys == s * 4096);
                                        assert(phys & !ADDRESS_MASK == 0) by (bit_vector)
                                            requires
                                                phys % 4096 == 0,
                                                phys < 0x3777_7777_7778,
                                        ;
                                        assert(PhysicalMemoryAllocator::page_index(target_page) == s);
                                        assert(is_free_run(a_prev, s, 1));
                                        assert(!a_prev[s]);
                                        assert(!a0[s]);
                                        lemma_free_count_use(a_prev, s);
                                        lemma_free_count_zero(a_prev);
                                        assert(!is_free_run(a_prev, s, 1) ==> false);
                                    },
                                }
                            }
                            let mut updated = entry;
                            updated.set_target_page(&target_page, flags);
                            mem.write_entry(current_table, index, updated);
                            proof {
                                let m2 = mem.words@;
                                assert(m2[w] == ((entry.0 | phys) & ADDRESS_MASK) | (flags.0 | PageTableEntryFlags::PRESENT));
                                if fresh {
                                    assert(w != leaf0);
                                    assert(m2[leaf0] == mem_prev[leaf0]);
                                    assert(new_tables_linked(m0, a0, m2, leaf0, va, phys, flags.0, first_table, current_table as int));
                                } else {
                                    assert(stop == PageTableLevel::Level1);
                                }
                                assert(mapping_written(m0, a0, m2, root, va, phys, flags.0));
                            }
                            proof {
                                let v = updated.0;
                                let f = flags.0;
                                let e0 = entry.0;
                                assert(1u64 << 7u64 == 128u64) by (bit_vector);
                                if zero_end && f & ADDRESS_MASK == 0 && f & PageTableEntryFlags::HUGE_PAGE == 0 {
                                    assert(e0 & 0x000f_ffff_ffff_f000u64 == 0);
                                    assert(v & 0x000f_ffff_ffff_f000u64 == phys && v & 0xfff0_0000_0000_0fffu64 == f | 1
                                        && v & 0xfff0_0000_0000_0fffu64 & 1 == 1 && v & 0xfff0_0000_0000_0fffu64 & 128 != 128)
                                        by (bit_vector)
                                        requires
                                            e0 & 0x000f_ffff_ffff_f000u64 == 0,
                                            phys & !0x000f_ffff_ffff_f000u64 == 0,
                                            f & 0x000f_ffff_ffff_f000u64 == 0,
                                            f & 128 == 0,
                                            v == ((e0 | phys) & 0x000f_ffff_ffff_f000u64) | (f | 1),
                                    ;
                                    lemma_chain_write_end(mem_prev, a_prev, root, PageTableLevel::Level4, va, current_table as int, current_level, v);
                                    lemma_chain_walk(mem.words@, a_prev, root, PageTableLevel::Level4, va, current_table as int, current_level);
                                    assert(in_physical_mapping(target_page.start_addr.0 as int)) by {
                                        match map_target {
                                            MapTarget::ExistingPhysPage(p) => {},
                                            MapTarget::NewPhysPage => {
                                                let s = choose|s: int|
                                                    {
                                                        &&& is_first_free_run(a_prev, s, 1)
                                                        &&& allocator.allocator@ == a_prev.update(s, true)
                                                        &&& target_page.start_addr.0 == page_address(s)
                                                        &&& target_page.size == PageSize::Size4KiB
                                                    };
                                                assert(s * 4096 < KERNEL_PHYSICAL_MAPPING_END - KERNEL_PHYSICAL_MAPPING_START)
                                                    by (nonlinear_arith)
                                                    requires
                                                        0 <= s < a_prev.len(),
                                                        a_prev.len() * 4096 <= KERNEL_PHYSICAL_MAPPING_END
                                                            - KERNEL_PHYSICAL_MAPPING_START,
                                                ;
                                            },
                                        }
                                    }
                                    lemma_chain_walk_ok(mem.words@, a_prev, root, PageTableLevel::Level4, va, current_table as int);
                                    assert forall|va2: u64| #[trigger] same_small_page(va, va2) implies walk(
                                        mem.words@,
                                        root,
                                        PageTableLevel::Level4,
                                        va2,
                                    ) == TranslateResult::Mapped(
                                        AddressPageMapping {
                                            page: Page { start_addr: target_page.start_addr, size: PageSize::Size4KiB },
                                            flags: PageTableEntryFlags(flags.0 | PageTableEntryFlags::PRESENT),
                                            offset: (va2 as int % 4096) as u64,
                                        },
                                    ) by {
                                        lemma_walk_same_page(mem.words@, root, PageTableLevel::Level4, va, va2);
                                    }
                                }
                                assert(forall|w2: int|
                                    0 <= w2 < m0.len() && frame_used(a0, w2 * 8) && w2 != leaf0 ==> #[trigger] mem.words@[w2]
                                        == m0[w2]);
                                assert forall|va2: u64|
                                    walk_ok(m0, root, PageTableLevel::Level4, va2) && path_used(m0, a0, root, PageTableLevel::Level4, va2)
                                        && !walk_reads(m0, root, PageTableLevel::Level4, va2, leaf0) implies #[trigger] walk(
                                    mem.words@,
                                    root,
                                    PageTableLevel::Level4,
                                    va2,
                                ) == walk(m0, root, PageTableLevel::Level4, va2) by {
                                    lemma_walk_unchanged(m0, mem.words@, a0, leaf0, root, PageTableLevel::Level4, va2);
                                }
                            }
                            return Ok(target_page);
                        },
                        Some(next_level) => {
                            let child = match mem.allocate_and_map_child_table(
                                current_table,
                                index,
                                allocator,
                                parent_flags,
                            ) {
                                Ok(child) => child,
                                Err(e) => {
                                    proof {
                                        lemma_free_count_zero(allocator.allocator@);
                                        assert forall|va2: u64|
                                            walk_ok(m0, root, PageTableLevel::Level4, va2) && path_used(
                                                m0,
                                                a0,
                                                root,
                                                PageTableLevel::Level4,
                                                va2,
                                            ) && !walk_reads(m0, root, PageTableLevel::Level4, va2, leaf0) implies #[trigger] walk(
                                            mem.words@,
                                            root,
                                            PageTableLevel::Level4,
                                            va2,
                                        ) == walk(m0, root, PageTableLevel::Level4, va2) by {
                                            lemma_walk_unchanged(m0, mem.words@, a0, leaf0, root, PageTableLevel::Level4, va2);
                                        }
                                    }
                                    return Err(MapError::PhysicalPageAllocationFailed(e));
                                },
                            };
                            proof {
                                let frame = (child.0 / 4096) as int;
                                let n = a_prev.len();
                                let z = zero_frame(mem_prev, frame);
                                let c = child.0;
                                let pf = parent_flags.0;
                                let v = mem.words@[w];
                                assert(z[w] == mem_prev[w]);
                                assert(frame * 4096 / 8 + 512 <= n * 512) by (nonlinear_arith)
                                    requires
                                        0 <= frame < n,
                                ;
                                assert(c == frame * 4096);
                                lemma_free_count_use(a_prev, frame);
                                lemma_va_index_bound(next_level, va);
                                assert(entry_word(c as int, next_level, va) != w);
                                assert(is_free_run(a_prev, frame, 1));
                                assert(!a_prev[frame]);
                                assert(!a0[frame]);
                                assert forall|w2: int|
                                    0 <= w2 < m0.len() && frame_used(a0, w2 * 8) && w2 != leaf0 implies #[trigger] mem.words@[w2]
                                    == m0[w2] by {
                                    if frame * 512 <= w2 < frame * 512 + 512 {
                                        lemma_word_frame(w2, frame);
                                    }
                                    assert(mem_prev[w2] == m0[w2]);
                                }
                                if !fresh {
                                    first_table = c as int;
                                    assert(frame_used(a0, current_table as int));
                                    assert(w == leaf0);
                                    assert(frame_used(a0, leaf0 * 8));
                                } else {
                                    assert(w != leaf0);
                                    if frame * 512 <= leaf0 < frame * 512 + 512 {
                                        lemma_word_frame(leaf0, frame);
                                    }
                                    assert(z[leaf0] == mem_prev[leaf0]);
                                }
                                fresh = true;
                                assert(1u64 << 7u64 == 128u64) by (bit_vector);
                                if zero_end {
                                    let zw = z[w];
                                    assert(zw & 0x000f_ffff_ffff_f000u64 == 0);
                                    let f = flags.0;
                                    assert((1u64 | (1u64 << 1u64) | (1u64 << 2u64)) == 7u64) by (bit_vector);
                                    assert(pf & 7 == pf) by (bit_vector)
                                        requires
                                            pf == f & 7u64,
                                    ;
                                    assert(v & 0x000f_ffff_ffff_f000u64 == c && v & 0xfff0_0000_0000_0fffu64 & 1 == 1
                                        && v & 0xfff0_0000_0000_0fffu64 & 128 != 128) by (bit_vector)
                                        requires
                                            c % 4096 == 0,
                                            c < 0x10_0000_0000_0000u64,
                                            pf & 7 == pf,
                                            zw & 0x000f_ffff_ffff_f000u64 == 0,
                                            v == ((zw | c) & 0x000f_ffff_ffff_f000u64) | (pf | 1),
                                    ;
                                    lemma_chain_zero_frame(mem_prev, a_prev, allocator.allocator@, frame, root, PageTableLevel::Level4, va, current_table as int, current_level);
                                    lemma_chain_write_end(z, allocator.allocator@, root, PageTableLevel::Level4, va, current_table as int, current_level, v);
                                    assert(z.update(w, v) == mem.words@);
                                    lemma_chain_extend(mem.words@, allocator.allocator@, root, PageTableLevel::Level4, va, current_table as int, current_level, next_level);
                                }
                            }
                            current_table = child.0;
                            current_level = next_level;
                        },
                    }
                },
                PageTableTarget::Page { page: existing_target, flags: existing_flags } => {
                    return Err(MapError::PageAlreadyMapped { existing_target, flags: existing_flags });
                },
                PageTableTarget::NextTable { level, table } => {
                    let next_table = table.to_phys_addr().0;
                    proof {
                        lemma_walk_step(m0, a0, current_table as int, current_level, va, level);
                        lemma_chain_extend(m0, a0, root, PageTableLevel::Level4, va, current_table as int, current_level, level);
                    }
                    current_table = next_table;
                    current_level = level;
                },
            }
        }
    }

    /// Clears the entries of the lower half of the level 4 table, so that
    /// nothing below the higher half of the address space is mapped.
    pub fn unmap_lower_half(&self, mem: &mut PhysicalMemory)
        requires
            table_in(old(mem).words@, self.table.0 as int),
        ensures
            final(mem).words@ == Seq::new(
                old(mem).words@.len(),
                |w: int|
                    if self.table.0 / 8 <= w < self.table.0 / 8 + 256 {
                        0u64
                    } else {
                        old(mem).words@[w]
                    },
            ),
            forall|va: u64|
                va_index(PageTableLevel::Level4, va) < 256 ==> #[trigger] walk(
                    final(mem).words@,
                    self.table.0 as int,
                    PageTableLevel::Level4,
                    va,
                ) is Unmapped,
    {
        let root = self.table.0;
        let ghost base = root / 8;
        let mut i: u16 = 0;
        while i < 256
            invariant
                root == self.table.0,
                base == root / 8,
                table_in(mem.words@, root as int),
                mem.words@.len() == old(mem).words@.len(),
                0 <= i <= 256,
                forall|w: int|
                    0 <= w < mem.words@.len() ==> #[trigger] mem.words@[w] == if base <= w < base + i {
                        0u64
                    } else {
                        old(mem).words@[w]
                    },
            decreases 256 - i,
        {
            let index = PageTableIndex::new(i);
            let mut entry = mem.read_entry(root, index);
            entry.clear();
            mem.write_entry(root, index, entry);
            i += 1;
        }
        let ghost m = mem.words@;
        assert(m =~= Seq::new(
            old(mem).words@.len(),
            |w: int| if base <= w < base + 256 { 0u64 } else { old(mem).words@[w] },
        ));
        assert forall|va: u64| va_index(PageTableLevel::Level4, va) < 256 implies #[trigger] walk(
            m,
            root as int,
            PageTableLevel::Level4,
            va,
        ) is Unmapped by {
            lemma_va_index_bound(PageTableLevel::Level4, va);
            let z = m[entry_word(root as int, PageTableLevel::Level4, va)];
            assert(z == 0);
            assert(z & ALL_FLAGS & 1 != 1) by (bit_vector)
                requires
                    z == 0,
            ;
        }
    }

    /// Allocates a clone of the level 4 table into a new physical page.
    pub fn allocate_clone(&self, mem: &mut PhysicalMemory, allocator: &mut PhysicalMemoryAllocator) -> (r:
        Level4PageTable)
        requires
            old(allocator).wf(),
            old(allocator).allocator@.len() * 512 <= old(mem).words@.len(),
            table_in(old(mem).words@, self.table.0 as int),
            !has_no_free_run(old(allocator).allocator@, 1),
        ensures
            final(allocator).wf(),
            ({
                let frame = r.table.0 / 4096;
                let m = old(mem).words@;
                let base = self.table.0 / 8;
                &&& r.table.0 % 4096 == 0
                &&& is_first_free_run(old(allocator).allocator@, frame as int, 1)
                &&& final(allocator).allocator@ == old(allocator).allocator@.update(frame as int, true)
                &&& final(mem).words@ == Seq::new(
                    m.len(),
                    |w: int|
                        if frame * 512 <= w < frame * 512 + 512 {
                            m[base + (w - frame * 512)]
                        } else {
                            m[w]
                        },
                )
            }),
    {
        let page = match allocator.allocate_page() {
            Ok(page) => page,
            Err(_) => vstd::pervasive::unreached(),
        };
        let ghost s = choose|s: int|
            {
                &&& is_first_free_run(old(allocator).allocator@, s, 1)
                &&& allocator.allocator@ == old(allocator).allocator@.update(s, true)
                &&& page.start_addr.0 == page_address(s)
                &&& page.size == PageSize::Size4KiB
            };
        proof {
            let n = old(allocator).allocator@.len();
            assert(s * 4096 < KERNEL_PHYSICAL_MAPPING_END - KERNEL_PHYSICAL_MAPPING_START) by (nonlinear_arith)
                requires
                    0 <= s < n,
                    n * 4096 <= KERNEL_PHYSICAL_MAPPING_END - KERNEL_PHYSICAL_MAPPING_START,
            ;
            assert(s * 4096 / 8 + 512 <= n * 512) by (nonlinear_arith)
                requires
                    0 <= s < n,
            ;
        }
        let new_table = page.start_addr().to_phys_addr();
        assert(new_table.0 == s * 4096);
        let root = self.table.0;
        let ghost m = mem.words@;
        let ghost base = root / 8;
        let ghost nbase = s * 512;
        assert(base % 512 == 0);
        let mut i: u16 = 0;
        while i < 512
            invariant
                root == self.table.0,
                base == root / 8,
                base % 512 == 0,
                nbase == s * 512,
                new_table.0 == s * 4096,
                table_in(m, root as int),
                table_in(m, new_table.0 as int),
                m == old(mem).words@,
                mem.words@.len() == m.len(),
                0 <= i <= 512,
                forall|w: int|
                    0 <= w < m.len() ==> #[trigger] mem.words@[w] == if nbase <= w < nbase + i {
                        m[base + (w - nbase)]
                    } else {
                        m[w]
                    },
            decreases 512 - i,
        {
            let index = PageTableIndex::new(i);
            let entry = mem.read_entry(root, index);
            assert(entry.0 == m[base + i]);
            mem.write_entry(new_table.0, index, entry);
            i += 1;
        }
        assert(mem.words@ =~= Seq::new(
            m.len(),
            |w: int| if s * 512 <= w < s * 512 + 512 { m[base + (w - s * 512)] } else { m[w] },
        ));
        Level4PageTable { table: new_table }
    }

    /// Fills in the entries of the top half of the level 4 table: each one
    /// that is not present gets a new, zeroed level 3 table, each present one
    /// keeps its table, and all of them get exactly the present and writable
    /// flags. Tables cloned from this one then share the kernel's mappings.
    pub fn fill_top_half_entries(&self, mem: &mut PhysicalMemory, allocator: &mut PhysicalMemoryAllocator)
        requires
            old(allocator).wf(),
            old(allocator).allocator@.len() * 512 <= old(mem).words@.len(),
            table_in(old(mem).words@, self.table.0 as int),
            frame_used(old(allocator).allocator@, self.table.0 as int),
            forall|i: int|
                256 <= i < 512 ==> top_entry_ok(PageTableEntry(#[trigger] old(mem).words@[self.table.0 / 8 + i])),
            free_count(old(allocator).allocator@) >= missing_from(old(mem).words@, (self.table.0 / 8) as int, 256),
        ensures
            final(allocator).wf(),
            final(mem).words@.len() == old(mem).words@.len(),
            final(allocator).allocator@.len() == old(allocator).allocator@.len(),
            forall|k: int|
                0 <= k < old(allocator).allocator@.len() && old(allocator).allocator@[k]
                    ==> #[trigger] final(allocator).allocator@[k],
            free_count(final(allocator).allocator@) + missing_from(old(mem).words@, (self.table.0 / 8) as int, 256)
                == free_count(old(allocator).allocator@),
            forall|i: int|
                256 <= i < 512 ==> top_entry_filled(
                    old(mem).words@,
                    final(mem).words@,
                    old(allocator).allocator@,
                    final(allocator).allocator@,
                    #[trigger] (self.table.0 / 8 + i),
                ),
            forall|w: int|
                0 <= w < old(mem).words@.len() && !(self.table.0 / 8 + 256 <= w < self.table.0 / 8 + 512)
                    && frame_used(old(allocator).allocator@, w * 8) ==> #[trigger] final(mem).words@[w]
                    == old(mem).words@[w],
    {
        let root = self.table.0;
        let ghost m0 = mem.words@;
        let ghost a0 = allocator.allocator@;
        let ghost base: int = (root / 8) as int;
        let flags = PageTableEntryFlags(PageTableEntryFlags::PRESENT | PageTableEntryFlags::WRITABLE);
        assert((1u64 | (1u64 << 1u64)) == 3u64) by (bit_vector);
        assert(base % 512 == 0);
        let mut i: u16 = 256;
        while i < 512
            invariant
                root == self.table.0,
                base == root / 8,
                base % 512 == 0,
                flags.0 == 3,
                m0 == old(mem).words@,
                a0 == old(allocator).allocator@,
                allocator.wf(),
                a0.len() * 512 <= m0.len(),
                table_in(m0, root as int),
                frame_used(a0, root as int),
                forall|j: int| 256 <= j < 512 ==> top_entry_ok(PageTableEntry(#[trigger] m0[base + j])),
                256 <= i <= 512,
                mem.words@.len() == m0.len(),
                allocator.allocator@.len() == a0.len(),
                forall|k: int| 0 <= k < a0.len() && a0[k] ==> #[trigger] allocator.allocator@[k],
                free_count(allocator.allocator@) >= missing_from(m0, base, i as int),
                free_count(allocator.allocator@) + (missing_from(m0, base, 256) - missing_from(m0, base, i as int))
                    == free_count(a0),
                forall|j: int| i <= j < 512 ==> #[trigger] mem.words@[base + j] == m0[base + j],
                forall|j: int|
                    256 <= j < i ==> top_entry_filled(m0, mem.words@, a0, allocator.allocator@, #[trigger] (base + j)),
                forall|w: int|
                    0 <= w < m0.len() && !(base + 256 <= w < base + i) && frame_used(a0, w * 8)
                        ==> #[trigger] mem.words@[w] == m0[w],
            decreases 512 - i,
        {
            let index = PageTableIndex::new(i);
            let entry = mem.read_entry(root, index);
            let ghost mem_prev = mem.words@;
            let ghost a_prev = allocator.allocator@;
            let ghost w = base + i;
            assert(entry.0 == m0[w]);
            assert(top_entry_ok(PageTableEntry(m0[base + i])));
            match entry.target(PageTableLevel::Level4) {
                PageTableTarget::Unmapped => {
                    proof {
                        lemma_missing_from_nonneg(m0, base, i + 1);
                        assert(missing_from(m0, base, i as int) == missing_from(m0, base, i + 1) + 1);
                        lemma_free_count_zero(a_prev);
                    }
                    let child = match mem.allocate_and_map_child_table(root, index, allocator, flags) {
                        Ok(child) => child,
                        Err(_) => vstd::pervasive::unreached(),
                    };
                    proof {
                        let f = (child.0 / 4096) as int;
                        let n = a_prev.len();
                        let z = zero_frame(mem_prev, f);
                        assert(is_free_run(a_prev, f, 1));
                        assert(!a_prev[f]);
                        assert(!a0[f]);
                        assert(root as int / 4096 != f);
                        assert(z[w] == mem_prev[w]);
                        lemma_free_count_use(a_prev, f);
                        let c = child.0;
                        let v = mem.words@[w];
                        let e0 = mem_prev[w];
                        assert(v == ((e0 | c) & ADDRESS_MASK) | (3u64 | 1u64));
                        assert(v & 0xfff0_0000_0000_0fffu64 == 3 && (e0 == 0 ==> v & 0x000f_ffff_ffff_f000u64 == c))
                            by (bit_vector)
                            requires
                                c % 4096 == 0,
                                c < 0x10_0000_0000_0000u64,
                                v == ((e0 | c) & 0x000f_ffff_ffff_f000u64) | (3u64 | 1u64),
                        ;
                        assert(f * 4096 / 8 + 512 <= n * 512) by (nonlinear_arith)
                            requires
                                0 <= f < n,
                        ;
                        assert forall|j: int| 256 <= j < i + 1 implies top_entry_filled(
                            m0,
                            mem.words@,
                            a0,
                            allocator.allocator@,
                            #[trigger] (base + j),
                        ) by {
                            if j < i {
                                assert(top_entry_filled(m0, mem_prev, a0, a_prev, base + j));
                                let t = mem_prev[base + j] & ADDRESS_MASK;
                                if !PageTableEntry(m0[base + j]).present() && m0[base + j] == 0 {
                                    assert forall|k: int| t / 8 <= k < t / 8 + 512 implies mem.words@[k] == 0 by {
                                        assert(mem_prev[k] == 0);
                                        assert(t / 4096 != f);
                                    }
                                }
                            } else {
                                assert(j == i);
                            }
                        }
                        assert forall|w2: int|
                            0 <= w2 < m0.len() && !(base + 256 <= w2 < base + i + 1) && frame_used(a0, w2 * 8)
                                implies #[trigger] mem.words@[w2] == m0[w2] by {
                            assert(mem_prev[w2] == m0[w2]);
                            assert(w2 / 512 != f);
                        }
                    }
                },
                PageTableTarget::Page { .. } => {
                    proof {
                        assert(false);
                    }
                },
                PageTableTarget::NextTable { .. } => {
                    let mut updated = entry;
                    updated.set_flags(flags);
                    mem.write_entry(root, index, updated);
                    proof {
                        let e0 = entry.0;
                        let v = updated.0;
                        assert(v & 0xfff0_0000_0000_0fffu64 == 3 && v & 0x000f_ffff_ffff_f000u64 == e0
                            & 0x000f_ffff_ffff_f000u64) by (bit_vector)
                            requires
                                v == (e0 & 0x000f_ffff_ffff_f000u64) | 3u64,
                        ;
                        assert forall|j: int| 256 <= j < i + 1 implies top_entry_filled(
                            m0,
                            mem.words@,
                            a0,
                            allocator.allocator@,
                            #[trigger] (base + j),
                        ) by {
                            if j < i {
                                assert(top_entry_filled(m0, mem_prev, a0, a_prev, base + j));
                                let t = mem_prev[base + j] & ADDRESS_MASK;
                                if !PageTableEntry(m0[base + j]).present() && m0[base + j] == 0 {
                                    assert forall|k: int| t / 8 <= k < t / 8 + 512 implies mem.words@[k] == 0 by {
                                        assert(mem_prev[k] == 0);
                                    }
                                }
                            }
                        }
                    }
                },
            }
            i += 1;
        }
    }
}

} // verus!
