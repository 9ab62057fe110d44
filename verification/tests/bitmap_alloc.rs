use rust_os::bitmap_alloc::allocator;
use rust_os::bitmap_alloc::bootstrap::{bitmap_location, bootstrap_allocator, MemoryRegion};
use rust_os::bitmap_alloc::BitmapAllocator;

#[test]
fn lib_simple_test() {
    let bitmap = vec![0u8; 2];
    let mut allocator = BitmapAllocator::new(bitmap);

    let start = allocator.allocate_contiguous(1);
    assert_eq!(start, Some(0));

    let start = allocator.allocate_contiguous(100);
    assert_eq!(start, None);

    allocator.mark_used(3);
    let start = allocator.allocate_contiguous(5);
    assert_eq!(start, Some(4));

    assert_eq!(allocator.bitmap(), &vec![0b11111001, 0b00000001]);

    let start = allocator.allocate_contiguous(3);
    assert_eq!(start, Some(9));
    assert_eq!(allocator.bitmap(), &vec![0b11111001, 0b00001111]);

    allocator.free_contiguous(4, 5);
    assert_eq!(allocator.bitmap(), &vec![0b00001001, 0b00001110]);
}

#[test]
fn alloc_simple_test() {
    let bitmap = vec![0u8; 2];
    let mut allocator = allocator::BitmapAllocator::new(bitmap);

    let start = allocator.allocate_contiguous(1);
    assert_eq!(start, Some(0));

    let start = allocator.allocate_contiguous(100);
    assert_eq!(start, None);

    allocator.mark_used(3);
    let start = allocator.allocate_contiguous(5);
    assert_eq!(start, Some(4));

    assert_eq!(allocator.bitmap(), &vec![0b11111001, 0b00000001]);

    let start = allocator.allocate_contiguous(3);
    assert_eq!(start, Some(9));
    assert_eq!(allocator.bitmap(), &vec![0b11111001, 0b00001111]);

    allocator.free_contiguous(4, 5);
    assert_eq!(allocator.bitmap(), &vec![0b00001001, 0b00001110]);
}

#[test]
fn lib_full_byte_is_skipped() {
    // A free page before a full byte does not join the pages after it: the
    // first run of two free pages starts after the full byte.
    let mut allocator = BitmapAllocator::new(vec![0b0111_1111, 0xFF, 0x00]);
    assert_eq!(allocator.allocate_contiguous(2), Some(16));
    assert_eq!(allocator.allocate_contiguous(0), None);

    let mut allocator = BitmapAllocator::new(vec![0x00, 0xFF, 0x00, 0x00]);
    assert_eq!(allocator.allocate_contiguous(10), Some(16));
    assert_eq!(allocator.bitmap(), &vec![0x00, 0xFF, 0xFF, 0x03]);
    assert_eq!(allocator.allocate_contiguous(9), None);
    assert_eq!(allocator.allocate_contiguous(8), Some(0));
}

#[test]
fn alloc_first_fit_u64() {
    let mut allocator = allocator::BitmapAllocator::new(vec![u64::MAX, 0b1011u64]);
    assert_eq!(allocator.num_pages(), 128);
    assert_eq!(allocator.allocate_contiguous(1), Some(66));
    assert_eq!(allocator.allocate_contiguous(3), Some(68));
    assert_eq!(allocator.bitmap(), &vec![u64::MAX, 0b111_1111u64]);
    assert_eq!(allocator.allocate_contiguous(61), None);
    assert_eq!(allocator.allocate_contiguous(57), Some(71));
    allocator.free_contiguous(66, 1);
    assert!(!allocator.is_used(66));
    assert!(allocator.is_used(67));
}

#[test]
fn alloc_free_everything_leaves_bitmap_empty() {
    let mut allocator = allocator::BitmapAllocator::new(vec![0u8; 4]);
    let mut blocks = Vec::new();
    for n in [3usize, 7, 1, 9, 2] {
        if let Some(start) = allocator.allocate_contiguous(n) {
            blocks.push((start, n));
        }
    }
    let (start, n) = blocks.remove(1);
    allocator.free_contiguous(start, n);
    if let Some(start) = allocator.allocate_contiguous(4) {
        blocks.push((start, 4));
    }
    for (start, n) in blocks {
        allocator.free_contiguous(start, n);
    }
    assert!(allocator.bitmap().iter().all(|&byte| byte == 0));
}

fn test_regions() -> Vec<MemoryRegion> {
    vec![
        MemoryRegion { start_address: 0, len_bytes: 0x100, free: false },
        MemoryRegion { start_address: 0x100, len_bytes: 0x100, free: true },
        MemoryRegion { start_address: 0x200, len_bytes: 0x200, free: false },
        // N.B. There is a hole here
        MemoryRegion { start_address: 0x419, len_bytes: 0xd1, free: true },
        MemoryRegion { start_address: 0x500, len_bytes: 0x20, free: false },
    ]
}

#[test]
fn bootstrap() {
    const TEST_BITMAP_LEN: usize = 2;
    let regions = test_regions();

    let page_size = 0x10;
    let allocate_bitmap = |start: usize, len: usize| -> Vec<u64> {
        assert_eq!(start, 0x100);
        assert_eq!(len, TEST_BITMAP_LEN);
        vec![0u64; TEST_BITMAP_LEN]
    };

    let alloc = bootstrap_allocator(page_size, &regions, allocate_bitmap);
    let bitmap = alloc.bitmap().clone();
    let bits_per_chunk = allocator::BitmapAllocator::<u64>::bits_per_chunk();
    let test_page = |page: usize, expect_occupied: bool| {
        let index = page / bits_per_chunk;
        let bit = page % bits_per_chunk;
        let val = bitmap[index] & (1 << bit);
        if expect_occupied {
            assert!(val != 0, "page {page} should be occupied");
        } else {
            assert!(val == 0, "page {page} should be free");
        }
    };

    // Check that memory regions are properly occupied
    let bitmap_page = 0x10;
    for region in regions.iter() {
        let start_page = region.start_address.div_ceil(page_size);
        let end_page = (region.start_address + region.len_bytes as usize) / page_size;

        for page in start_page..end_page {
            // Bitmap itself takes up space!
            let expect_occupied = !region.free || (page == bitmap_page);
            test_page(page, expect_occupied);
        }
    }

    // Check that the memory hole is used
    test_page(0x390 / page_size, true);
    test_page(0x400 / page_size, true);
    test_page(0x410 / page_size, true);
    test_page(0x420 / page_size, false);
    test_page(0x430 / page_size, false);
}

#[test]
fn bootstrap_bitmap_location() {
    assert_eq!(bitmap_location(0x10, &test_regions()), (0x100, 2));
}

#[test]
fn page_aligned_start_end_address_free() {
    let region = MemoryRegion {
        start_address: 0x101,
        len_bytes: 0x100,
        free: true,
    };
    let got = region.page_aligned_start_end_address(0x10);
    let expect = Some((0x110, 0x200));
    assert_eq!(got, expect);

    let region = MemoryRegion {
        start_address: 0x100,
        len_bytes: 0x100,
        free: true,
    };
    let got = region.page_aligned_start_end_address(0x10);
    let expect = Some((0x100, 0x200));
    assert_eq!(got, expect);
}

#[test]
fn page_aligned_start_end_address_free_too_small() {
    let region = MemoryRegion {
        start_address: 0x101,
        len_bytes: 0x10,
        free: true,
    };
    let got = region.page_aligned_start_end_address(0x10);
    assert_eq!(got, None);

    let region = MemoryRegion {
        start_address: 0x101,
        len_bytes: 0xf,
        free: true,
    };
    let got = region.page_aligned_start_end_address(0x10);
    assert_eq!(got, None);

    let region = MemoryRegion {
        start_address: 0x101,
        len_bytes: 0xe,
        free: true,
    };
    let got = region.page_aligned_start_end_address(0x10);
    assert_eq!(got, None);

    let region = MemoryRegion {
        start_address: 0x101,
        len_bytes: 0x1f,
        free: true,
    };
    let got = region.page_aligned_start_end_address(0x10);
    let expect = Some((0x110, 0x120));
    assert_eq!(got, expect);
}

#[test]
fn page_aligned_start_end_address_occupied_grows() {
    let region = MemoryRegion {
        start_address: 0x101,
        len_bytes: 0x10,
        free: false,
    };
    assert_eq!(region.page_aligned_start_end_address(0x10), Some((0x100, 0x120)));
}

#[test]
fn bootstrap_bitmap_needs_its_bytes() {
    // 0x2000 bytes of memory in pages of 0x10: 0x200 pages, 8 words, 64 bytes
    // of bitmap. The first free region spans only 0x20 bytes, so the bitmap
    // goes in the second, and its four pages are in use.
    let regions = vec![
        MemoryRegion { start_address: 0x100, len_bytes: 0x20, free: true },
        MemoryRegion { start_address: 0x200, len_bytes: 0x100, free: true },
        MemoryRegion { start_address: 0x1000, len_bytes: 0x1000, free: false },
    ];
    assert_eq!(bitmap_location(0x10, &regions), (0x200, 8));
    let allocate_bitmap = |start: usize, len: usize| -> Vec<u64> {
        assert_eq!((start, len), (0x200, 8));
        vec![0u64; len]
    };
    let alloc = bootstrap_allocator(0x10, &regions, allocate_bitmap);
    for page in 0x10..0x12 {
        assert!(!alloc.is_used(page));
    }
    for page in 0x20..0x24 {
        assert!(alloc.is_used(page));
    }
    for page in 0x24..0x30 {
        assert!(!alloc.is_used(page));
    }
    assert!(alloc.is_used(0x30));
}
