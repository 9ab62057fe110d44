use rust_os::bitmap_alloc::allocator::BitmapAllocator;
use rust_os::memory::page_table::{
    page_table_entry_virtual_address, sign_extend_virtual_address, PageTableEntry, PageTableEntryFlags,
    PageTableIndex, PageTableLevel, PageTableTarget,
};
use rust_os::memory::physical::PhysicalMemoryAllocator;
use rust_os::memory::tables::{
    Level4PageTable, MapError, MapTarget, PhysicalMemory, SetFlagsError, TranslateResult, UnmapError,
};
use rust_os::memory::{KernPhysAddr, Page, PageRange, PageSize, PhysAddr, VirtAddr};

#[test]
fn virtual_addresses_are_made_canonical() {
    assert_eq!(VirtAddr::new(0x0000_7fff_ffff_f000).0, 0x0000_7fff_ffff_f000);
    assert_eq!(VirtAddr::new(0x0000_8000_0000_0000).0, 0xffff_8000_0000_0000);
    assert_eq!(VirtAddr::new(0xffff_8000_0000_1000).0, 0xffff_8000_0000_1000);
    assert!(VirtAddr::try_new(0x1234_0000_0000_0000).is_none());
}

#[test]
fn kernel_physical_addresses() {
    let kern = KernPhysAddr::from_phys_addr(PhysAddr::new(0x1000));
    assert_eq!(kern.as_u64(), 0xffff_8000_0000_1000);
    assert_eq!(kern.to_phys_addr().as_u64(), 0x1000);
    assert_eq!(kern.add(0x234).as_u64(), 0xffff_8000_0000_1234);
    assert_eq!(kern.add(0x234).align_down(0x1000), kern);
    assert_eq!(kern.sub(0x1000).as_u64(), 0xffff_8000_0000_0000);
}

#[test]
fn pages_and_ranges() {
    let page = Page::containing_address(KernPhysAddr(0xffff_8000_0020_1234), PageSize::Size2MiB);
    assert_eq!(page.start_addr.0, 0xffff_8000_0020_0000);
    let range = PageRange::from_bytes_inclusive(
        Page::from_start_addr(KernPhysAddr(0xffff_8000_0000_4000), PageSize::Size4KiB),
        4097,
    );
    assert_eq!(range.num_pages(), 2);
    let mut pages = range.iter();
    assert_eq!(pages.next().map(|p| p.start_addr.0), Some(0xffff_8000_0000_4000));
    assert_eq!(pages.next().map(|p| p.start_addr.0), Some(0xffff_8000_0000_5000));
    assert!(pages.next().is_none());
    assert_eq!(PageSize::Size1GiB.size_bytes(), 1 << 30);
}

#[test]
fn page_table_indexes() {
    let addr = VirtAddr::new(0xffff_8000_0020_3000);
    assert_eq!(PageTableIndex::from_address(PageTableLevel::Level4, addr).0, 256);
    assert_eq!(PageTableIndex::from_address(PageTableLevel::Level3, addr).0, 0);
    assert_eq!(PageTableIndex::from_address(PageTableLevel::Level2, addr).0, 1);
    assert_eq!(PageTableIndex::from_address(PageTableLevel::Level1, addr).0, 3);
    assert_eq!(PageTableLevel::Level2.next_lower_level(), Some(PageTableLevel::Level1));
    assert_eq!(PageTableLevel::Level1.next_lower_level(), None);
}

#[test]
fn entry_virtual_addresses() {
    assert_eq!(sign_extend_virtual_address(0x0000_8000_0000_0000), 0xffff_8000_0000_0000);
    assert_eq!(sign_extend_virtual_address(0x0000_7000_0000_0000), 0x0000_7000_0000_0000);
    let addr = page_table_entry_virtual_address(PageTableLevel::Level4, PageTableIndex::new(256));
    assert_eq!(addr.0, 0xffff_8000_0000_0000);
    let addr = page_table_entry_virtual_address(PageTableLevel::Level1, PageTableIndex::new(3));
    assert_eq!(addr.0, 0x3000);
}

#[test]
fn page_table_entry_targets() {
    let mut entry = PageTableEntry(0);
    assert!(matches!(entry.target(PageTableLevel::Level4), PageTableTarget::Unmapped));

    let page = Page::from_start_addr(KernPhysAddr(0xffff_8000_0012_3000), PageSize::Size4KiB);
    entry.set_target_page(&page, PageTableEntryFlags(PageTableEntryFlags::WRITABLE));
    assert!(entry.is_present());
    assert_eq!(entry.raw_address(), 0x12_3000);
    assert_eq!(entry.flags().bits(), PageTableEntryFlags::WRITABLE | PageTableEntryFlags::PRESENT);
    match entry.target(PageTableLevel::Level1) {
        PageTableTarget::Page { page, .. } => {
            assert_eq!(page.start_addr.0, 0xffff_8000_0012_3000);
            assert_eq!(page.size, PageSize::Size4KiB);
        },
        _ => panic!("expected a page"),
    }
    match entry.target(PageTableLevel::Level3) {
        PageTableTarget::NextTable { level, table } => {
            assert_eq!(level, PageTableLevel::Level2);
            assert_eq!(table.0, 0xffff_8000_0012_3000);
        },
        _ => panic!("expected a table"),
    }

    let huge = PageTableEntry(0x4000_0000 | PageTableEntryFlags::HUGE_PAGE | PageTableEntryFlags::PRESENT);
    match huge.target(PageTableLevel::Level3) {
        PageTableTarget::Page { page, .. } => assert_eq!(page.size, PageSize::Size1GiB),
        _ => panic!("expected a huge page"),
    }

    entry.set_flags(PageTableEntryFlags(PageTableEntryFlags::NO_EXECUTE));
    assert!(!entry.is_present());
    assert_eq!(entry.raw_address(), 0x12_3000);
    entry.clear();
    assert_eq!(entry.0, 0);
}

fn allocator_with_zero_page_reserved() -> PhysicalMemoryAllocator {
    let mut bitmap = BitmapAllocator::new(vec![0u64; 2]);
    bitmap.mark_used(0);
    PhysicalMemoryAllocator { allocator: bitmap }
}

#[test]
fn physical_allocator_hands_out_kernel_addresses() {
    let mut allocator = allocator_with_zero_page_reserved();
    let range = allocator.allocate_pages(3).expect("free pages");
    assert_eq!(range.start.start_addr.0, 0xffff_8000_0000_1000);
    assert_eq!(range.num_pages, 3);
    let page = allocator.allocate_page().expect("free page");
    assert_eq!(page.start_addr.0, 0xffff_8000_0000_4000);
    allocator.free_pages(&range);
    let again = allocator.allocate_pages(2).expect("freed pages");
    assert_eq!(again.start.start_addr.0, 0xffff_8000_0000_1000);
    allocator.free_page(page);
    assert!(allocator.allocate_pages(200).is_err());
}

/// 128 pages of physical memory, with the zero page reserved and the level 4
/// table in page 1.
fn empty_page_tables() -> (PhysicalMemory, PhysicalMemoryAllocator, Level4PageTable) {
    let mut bitmap = BitmapAllocator::new(vec![0u64; 2]);
    bitmap.mark_used(0);
    bitmap.mark_used(1);
    let mem = PhysicalMemory { words: vec![0u64; 128 * 512] };
    (mem, PhysicalMemoryAllocator { allocator: bitmap }, Level4PageTable { table: PhysAddr::new(0x1000) })
}

const PRESENT_WRITABLE: u64 = PageTableEntryFlags::PRESENT | PageTableEntryFlags::WRITABLE;

fn mapped_page(result: TranslateResult) -> Option<(u64, PageSize, u64, u64)> {
    match result {
        TranslateResult::Unmapped => None,
        TranslateResult::Mapped(m) => Some((m.page.start_addr.0, m.page.size, m.flags.0, m.offset)),
    }
}

#[test]
fn test_new_page_table() {
    let (mut mem, mut allocator, table) = empty_page_tables();
    assert_eq!(table.physical_address().0, 0x1000);
    assert!(mapped_page(table.translate_address(&mem, VirtAddr::new(0x1234))).is_none());
    assert!(mapped_page(table.translate_address(&mem, VirtAddr::new(0x4000_1234))).is_none());
    assert!(mapped_page(table.translate_address(&mem, VirtAddr::new(0xffff_ffff_8000_1234))).is_none());

    let map_virt = Page::from_start_addr(VirtAddr::new(0x4_0000_0000), PageSize::Size4KiB);
    let map_phys = Page::from_start_addr(KernPhysAddr::from_phys_addr(PhysAddr::new(0x1_0000_0000)), PageSize::Size4KiB);
    let result = table.map_to(
        &mut mem,
        &mut allocator,
        map_virt,
        MapTarget::ExistingPhysPage(map_phys),
        PageTableEntryFlags(PRESENT_WRITABLE),
    );
    assert_eq!(result.map(|p| p.start_addr.0).ok(), Some(0xffff_8001_0000_0000));
    // Three intermediate tables were allocated, in pages 2, 3 and 4.
    assert_eq!(mem.words[0x1000 / 8] & 0x000f_ffff_ffff_f000, 0x2000);
    assert_eq!(mem.words[0x1000 / 8] & 0xfff, PRESENT_WRITABLE);

    let target = table.translate_address(&mem, VirtAddr::new(0x4_0000_0123));
    assert_eq!(mapped_page(target), Some((0xffff_8001_0000_0000, PageSize::Size4KiB, PRESENT_WRITABLE, 0x123)));

    let unmap_result = table.unmap(&mut mem, &mut allocator, map_virt, false);
    assert_eq!(unmap_result.map(|p| p.start_addr.0), Ok(0xffff_8001_0000_0000));
    assert!(mapped_page(table.translate_address(&mem, map_virt.start_addr)).is_none());

    let map_virt = Page::from_start_addr(VirtAddr::new(0x4_0001_0000), PageSize::Size4KiB);
    let result = table.map_to(&mut mem, &mut allocator, map_virt, MapTarget::NewPhysPage, PageTableEntryFlags(PRESENT_WRITABLE));
    // The tables exist already, so only the target page is allocated.
    assert_eq!(result.map(|p| p.start_addr.0).ok(), Some(0xffff_8000_0000_5000));
    let target = table.translate_address(&mem, map_virt.start_addr);
    assert_eq!(mapped_page(target), Some((0xffff_8000_0000_5000, PageSize::Size4KiB, PRESENT_WRITABLE, 0)));

    let unmap_result = table.unmap(&mut mem, &mut allocator, map_virt, true);
    assert_eq!(unmap_result.map(|p| p.start_addr.0), Ok(0xffff_8000_0000_5000));
    // The freed page is handed out again.
    assert_eq!(allocator.allocate_page().map(|p| p.start_addr.0).ok(), Some(0xffff_8000_0000_5000));
}

#[test]
fn map_to_refuses_mapped_page() {
    let (mut mem, mut allocator, table) = empty_page_tables();
    let page = Page::from_start_addr(VirtAddr::new(0x20_0000), PageSize::Size4KiB);
    assert!(table.map_to(&mut mem, &mut allocator, page, MapTarget::NewPhysPage, PageTableEntryFlags(PRESENT_WRITABLE)).is_ok());
    let again = table.map_to(&mut mem, &mut allocator, page, MapTarget::NewPhysPage, PageTableEntryFlags(PRESENT_WRITABLE));
    match again {
        Err(MapError::PageAlreadyMapped { existing_target, flags }) => {
            assert_eq!(existing_target.start_addr.0, 0xffff_8000_0000_5000);
            assert_eq!(flags.0, PRESENT_WRITABLE);
        },
        _ => panic!("expected the page to be mapped already"),
    }
}

#[test]
fn map_to_fails_without_free_pages() {
    let mut bitmap = BitmapAllocator::new(vec![0u64; 1]);
    for page in 0..62 {
        bitmap.mark_used(page);
    }
    let mut allocator = PhysicalMemoryAllocator { allocator: bitmap };
    let mut mem = PhysicalMemory { words: vec![0u64; 64 * 512] };
    let table = Level4PageTable { table: PhysAddr::new(0x1000) };
    // Two free pages, but three tables and a target page are needed.
    let page = Page::from_start_addr(VirtAddr::new(0x1000), PageSize::Size4KiB);
    let result = table.map_to(&mut mem, &mut allocator, page, MapTarget::NewPhysPage, PageTableEntryFlags(PRESENT_WRITABLE));
    assert!(matches!(result, Err(MapError::PhysicalPageAllocationFailed(_))));
    assert!(allocator.allocate_page().is_err());
}

#[test]
fn translate_huge_page() {
    let (mut mem, _allocator, table) = empty_page_tables();
    // Level 4 entry 0 -> level 3 table in page 2, whose entry 1 maps a 1 GiB page at 1 GiB.
    mem.words[0x1000 / 8] = 0x2000 | PRESENT_WRITABLE;
    mem.words[0x2000 / 8 + 1] = 0x4000_0000 | PRESENT_WRITABLE | PageTableEntryFlags::HUGE_PAGE;
    let target = table.translate_address(&mem, VirtAddr::new(0x4123_4567));
    assert_eq!(
        mapped_page(target),
        Some((0xffff_8000_4000_0000, PageSize::Size1GiB, PRESENT_WRITABLE | PageTableEntryFlags::HUGE_PAGE, 0x123_4567)),
    );
    let page = Page::from_start_addr(VirtAddr::new(0x4000_0000), PageSize::Size4KiB);
    let mut allocator = allocator_with_zero_page_reserved();
    match table.unmap(&mut mem, &mut allocator, page, false) {
        Err(UnmapError::PageWrongSize { expected_size, actual_size }) => {
            assert_eq!(expected_size, PageSize::Size4KiB);
            assert_eq!(actual_size, PageSize::Size1GiB);
        },
        _ => panic!("expected a page size mismatch"),
    }
}

#[test]
fn set_flags_keeps_address() {
    let (mut mem, mut allocator, table) = empty_page_tables();
    let page = Page::from_start_addr(VirtAddr::new(0x7000), PageSize::Size4KiB);
    assert_eq!(table.set_flags(&mut mem, page, PageTableEntryFlags(PRESENT_WRITABLE)), Err(SetFlagsError::PageNotMapped));
    table.map_to(&mut mem, &mut allocator, page, MapTarget::NewPhysPage, PageTableEntryFlags(PRESENT_WRITABLE)).ok();
    assert_eq!(table.set_flags(&mut mem, page, PageTableEntryFlags(PageTableEntryFlags::PRESENT | PageTableEntryFlags::NO_EXECUTE)), Ok(()));
    let target = table.translate_address(&mem, page.start_addr);
    assert_eq!(
        mapped_page(target),
        Some((0xffff_8000_0000_5000, PageSize::Size4KiB, PageTableEntryFlags::PRESENT | PageTableEntryFlags::NO_EXECUTE, 0)),
    );
    assert_eq!(table.unmap(&mut mem, &mut allocator, Page::from_start_addr(VirtAddr::new(0x8000), PageSize::Size4KiB), false).err(), Some(UnmapError::PageNotMapped));
}

#[test]
fn kernel_table_halves() {
    let mut bitmap = BitmapAllocator::new(vec![0u64; 8]);
    bitmap.mark_used(0);
    bitmap.mark_used(1);
    let mut allocator = PhysicalMemoryAllocator { allocator: bitmap };
    let mut mem = PhysicalMemory { words: vec![0u64; 512 * 512] };
    let table = Level4PageTable { table: PhysAddr::new(0x1000) };
    let low = Page::from_start_addr(VirtAddr::new(0x1000), PageSize::Size4KiB);
    table.map_to(&mut mem, &mut allocator, low, MapTarget::NewPhysPage, PageTableEntryFlags(PRESENT_WRITABLE)).ok();
    // Level 4 entry 300 already points to a table, with extra flags.
    mem.words[0x1000 / 8 + 300] = 0x7000 | PRESENT_WRITABLE | PageTableEntryFlags::USER_ACCESSIBLE;
    table.fill_top_half_entries(&mut mem, &mut allocator);
    for i in 256..512 {
        assert_eq!(mem.words[0x1000 / 8 + i] & 0xfff, PRESENT_WRITABLE);
    }
    assert_eq!(mem.words[0x1000 / 8 + 300] & 0x000f_ffff_ffff_f000, 0x7000);
    // Every other top-half entry got a new level 3 table: 255 pages, the
    // first of them page 6, right after the low mapping's pages.
    assert_eq!(mem.words[0x1000 / 8 + 256] & 0x000f_ffff_ffff_f000, 0x6000);

    table.unmap_lower_half(&mut mem);
    assert!(mapped_page(table.translate_address(&mem, low.start_addr)).is_none());

    let clone = table.allocate_clone(&mut mem, &mut allocator);
    assert_eq!(clone.table.0, 261 * 0x1000);
    for i in 0..512 {
        assert_eq!(mem.words[(clone.table.0 / 8) as usize + i], mem.words[0x1000 / 8 + i]);
    }
}

#[test]
fn mapping_changes_only_its_own_page() {
    let (mut mem, mut allocator, table) = empty_page_tables();
    let first = Page::from_start_addr(VirtAddr::new(0x40_0000), PageSize::Size4KiB);
    let second = Page::from_start_addr(VirtAddr::new(0x40_1000), PageSize::Size4KiB);
    let flags = PageTableEntryFlags(PRESENT_WRITABLE);
    assert!(table.map_to(&mut mem, &mut allocator, first, MapTarget::NewPhysPage, flags).is_ok());
    let before = mapped_page(table.translate_address(&mem, first.start_addr));
    assert!(table.map_to(&mut mem, &mut allocator, second, MapTarget::NewPhysPage, flags).is_ok());
    assert_eq!(mapped_page(table.translate_address(&mem, first.start_addr)), before);
    assert_eq!(table.unmap(&mut mem, &mut allocator, second, true).map(|p| p.start_addr.0), Ok(0xffff_8000_0000_6000));
    assert_eq!(mapped_page(table.translate_address(&mem, first.start_addr)), before);
    assert!(mapped_page(table.translate_address(&mem, second.start_addr)).is_none());
}

#[test]
fn unmap_twice_finds_page_not_mapped() {
    let (mut mem, mut allocator, table) = empty_page_tables();
    let page = Page::from_start_addr(VirtAddr::new(0x7000), PageSize::Size4KiB);
    let mapped = table.map_to(&mut mem, &mut allocator, page, MapTarget::NewPhysPage, PageTableEntryFlags(PRESENT_WRITABLE));
    assert_eq!(mapped.map(|p| p.start_addr.0).ok(), Some(0xffff_8000_0000_5000));
    assert_eq!(table.unmap(&mut mem, &mut allocator, page, false).map(|p| p.start_addr.0), Ok(0xffff_8000_0000_5000));
    assert_eq!(table.unmap(&mut mem, &mut allocator, page, false).err(), Some(UnmapError::PageNotMapped));
    assert!(mapped_page(table.translate_address(&mem, page.start_addr)).is_none());
}

#[test]
fn map_to_ors_the_target_into_the_old_entry() {
    let (mut mem, mut allocator, table) = empty_page_tables();
    let page = Page::from_start_addr(VirtAddr::new(0x7000), PageSize::Size4KiB);
    table.map_to(&mut mem, &mut allocator, page, MapTarget::NewPhysPage, PageTableEntryFlags(PRESENT_WRITABLE)).ok();
    table.unmap(&mut mem, &mut allocator, page, false).ok();
    // The level 1 entry for 0x7000 (table at 0x4000, index 7) is not
    // present but still holds address bits.
    mem.words[0x4000 / 8 + 7] = 0x6000;
    let target = Page::from_start_addr(KernPhysAddr(0xffff_8000_0000_9000), PageSize::Size4KiB);
    let mapped = table.map_to(&mut mem, &mut allocator, page, MapTarget::ExistingPhysPage(target), PageTableEntryFlags(PRESENT_WRITABLE));
    assert_eq!(mapped.map(|p| p.start_addr.0).ok(), Some(0xffff_8000_0000_9000));
    assert_eq!(mem.words[0x4000 / 8 + 7], 0xf000 | PRESENT_WRITABLE);
}

#[test]
fn map_to_links_new_table_into_the_old_entry() {
    let (mut mem, mut allocator, table) = empty_page_tables();
    // The level 4 entry for 0x80_0000_0000 (index 1) is not present but
    // holds address bits.
    mem.words[0x1000 / 8 + 1] = 0x3000_0000;
    let page = Page::from_start_addr(VirtAddr::new(0x80_0000_0000), PageSize::Size4KiB);
    let flags = PageTableEntryFlags(PRESENT_WRITABLE | PageTableEntryFlags::NO_EXECUTE);
    let mapped = table.map_to(&mut mem, &mut allocator, page, MapTarget::NewPhysPage, flags);
    assert_eq!(mapped.map(|p| p.start_addr.0).ok(), Some(0xffff_8000_0000_5000));
    // The new level 3 table is in page 2; only the present, writable and
    // user bits of the flags go into the entry that points to it.
    assert_eq!(mem.words[0x1000 / 8 + 1], 0x3000_2000 | PRESENT_WRITABLE);
    // The level 1 entry, in the new table in page 4, maps the target page.
    assert_eq!(mem.words[0x4000 / 8], 0x5000 | PRESENT_WRITABLE | PageTableEntryFlags::NO_EXECUTE);
}
