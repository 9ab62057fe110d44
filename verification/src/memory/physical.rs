//! The kernel's physical memory allocator: the page bitmap allocator,
//! handing out pages as addresses in the kernel's mapping of physical
//! memory.

use vstd::prelude::*;

use crate::bitmap_alloc::allocator::{is_first_free_run, has_no_free_run, BitmapAllocator};
use crate::bitmap_alloc::chunk::{is_free_run, is_used_run, set_range};
use super::address::{KernPhysAddr, PhysAddr, KERNEL_PHYSICAL_MAPPING_END, KERNEL_PHYSICAL_MAPPING_START};
use super::page::{Page, PageRange, PageSize};

verus! {

/// Size of the pages that the allocator hands out: 4 KiB.
pub const PAGE_SIZE: usize = 4096;

/// The allocator has no run of free pages of the size asked for.
#[derive(Debug, Clone, Copy, PartialEq, Eq, Structural)]
pub struct AllocError;

/// The number of free pages in the bitmap `v`.
pub open spec fn free_count(v: Seq<bool>) -> nat
    decreases v.len(),
{
    if v.len() == 0 {
        0
    } else {
        free_count(v.drop_last()) + if v.last() {
            0nat
        } else {
            1nat
        }
    }
}

/// A bitmap has no free page exactly when its free count is zero.
pub proof fn lemma_free_count_zero(v: Seq<bool>)
    ensures
        free_count(v) == 0 <==> has_no_free_run(v, 1),
    decreases v.len(),
{
    if v.len() > 0 {
        let w = v.drop_last();
        lemma_free_count_zero(w);
        if free_count(v) == 0 {
            assert forall|t: int| 0 <= t implies !#[trigger] is_free_run(v, t, 1) by {
                if is_free_run(v, t, 1) {
                    if t < w.len() {
                        assert(is_free_run(w, t, 1));
                    }
                }
            }
        } else if has_no_free_run(v, 1) {
            assert(!is_free_run(v, v.len() - 1, 1));
            assert forall|t: int| 0 <= t implies !#[trigger] is_free_run(w, t, 1) by {
                assert(!is_free_run(v, t, 1));
                if is_free_run(w, t, 1) {
                    assert(!w[t]);
                    assert(v[t] == w[t]);
                    assert forall|p: int| t <= p < t + 1 implies !#[trigger] v[p] by {
                        assert(p == t);
                    }
                }
            }
        }
    }
}

/// Marking a free page used takes one off the free count.
pub proof fn lemma_free_count_use(v: Seq<bool>, i: int)
    requires
        0 <= i < v.len(),
        !v[i],
    ensures
        free_count(v.update(i, true)) + 1 == free_count(v),
    decreases v.len(),
{
    let u = v.update(i, true);
    if i == v.len() - 1 {
        assert(u.drop_last() =~= v.drop_last());
    } else {
        lemma_free_count_use(v.drop_last(), i);
        assert(u.drop_last() =~= v.drop_last().update(i, true));
    }
}

/// Wrapper around `BitmapAllocator` that knows how to deal with the kernel.
pub struct PhysicalMemoryAllocator {
    pub allocator: BitmapAllocator<u64>,
}

/// The kernel address of physical page `page`.
pub open spec fn page_address(page: int) -> int {
    page * PAGE_SIZE + KERNEL_PHYSICAL_MAPPING_START
}

impl PhysicalMemoryAllocator {
    /// Whether the allocator can be used by the kernel: the zero page is
    /// reserved, and every page it manages lies in the kernel's mapping of
    /// physical memory.
    pub open spec fn wf(&self) -> bool {
        &&& self.allocator.wf()
        &&& self.allocator@.len() > 0
        &&& self.allocator@[0]
        &&& self.allocator@.len() * PAGE_SIZE <= KERNEL_PHYSICAL_MAPPING_END - KERNEL_PHYSICAL_MAPPING_START
    }

    /// Allocates `num_pages` contiguous pages: the first run of that many
    /// free pages, marked in use.
    pub fn allocate_pages(&mut self, num_pages: usize) -> (r: Result<PageRange<KernPhysAddr>, AllocError>)
        requires
            old(self).wf(),
            num_pages > 0,
        ensures
            final(self).wf(),
            match r {
                Ok(range) => exists|s: int|
                    {
                        &&& is_first_free_run(old(self).allocator@, s, num_pages as int)
                        &&& final(self).allocator@ == set_range(old(self).allocator@, s, num_pages as int, true)
                        &&& range.start.start_addr.0 == page_address(s)
                        &&& range.start.size == PageSize::Size4KiB
                        &&& range.num_pages == num_pages
                    },
                Err(_) => has_no_free_run(old(self).allocator@, num_pages as int) && final(self).allocator@
                    == old(self).allocator@,
            },
    {
        let page = match self.allocator.allocate_contiguous(num_pages) {
            Some(p) => p,
            None => return Err(AllocError),
        };
        // The zero page is reserved, so it is never handed out.
        assert(page > 0);
        assert(self.allocator@.len() == old(self).allocator@.len());
        let ghost n = old(self).allocator@.len();
        assert(page * PAGE_SIZE <= KERNEL_PHYSICAL_MAPPING_END - KERNEL_PHYSICAL_MAPPING_START) by (nonlinear_arith)
            requires
                page < n,
                n * PAGE_SIZE <= KERNEL_PHYSICAL_MAPPING_END - KERNEL_PHYSICAL_MAPPING_START,
        ;
        let phys_addr = PhysAddr::new(page as u64 * PAGE_SIZE as u64);
        let start_addr = KernPhysAddr::from_phys_addr(phys_addr);
        proof {
            assert((page * PAGE_SIZE) % 4096 == 0) by (nonlinear_arith);
            assert(is_first_free_run(old(self).allocator@, page as int, num_pages as int));
        }
        let start_page = Page::from_start_addr(start_addr, PageSize::Size4KiB);
        let range = PageRange::new(start_page, num_pages);
        assert(range.start.start_addr.0 == page_address(page as int));
        Ok(range)
    }

    /// Allocates one page: the first free page, marked in use.
    pub fn allocate_page(&mut self) -> (r: Result<Page<KernPhysAddr>, AllocError>)
        requires
            old(self).wf(),
        ensures
            final(self).wf(),
            match r {
                Ok(page) => exists|s: int|
                    {
                        &&& is_first_free_run(old(self).allocator@, s, 1)
                        &&& final(self).allocator@ == old(self).allocator@.update(s, true)
                        &&& page.start_addr.0 == page_address(s)
                        &&& page.size == PageSize::Size4KiB
                    },
                Err(_) => has_no_free_run(old(self).allocator@, 1) && final(self).allocator@ == old(
                    self,
                ).allocator@,
            },
    {
        let pages = self.allocate_pages(1)?;
        proof {
            let s = choose|s: int|
                {
                    &&& is_first_free_run(old(self).allocator@, s, 1)
                    &&& self.allocator@ == set_range(old(self).allocator@, s, 1, true)
                    &&& pages.start.start_addr.0 == page_address(s)
                    &&& pages.start.size == PageSize::Size4KiB
                    &&& pages.num_pages == 1
                };
            assert(set_range(old(self).allocator@, s, 1, true) =~= old(self).allocator@.update(s, true));
        }
        Ok(pages.start)
    }

    /// The first page of a range of pages that the allocator handed out.
    pub open spec fn first_page_of(pages: &PageRange<KernPhysAddr>) -> int {
        (pages.start.start_addr.0 - KERNEL_PHYSICAL_MAPPING_START) / (pages.start.size.bytes())
    }

    /// Frees a range of pages; every page of it must be in use.
    pub fn free_pages(&mut self, pages: &PageRange<KernPhysAddr>)
        requires
            old(self).wf(),
            KERNEL_PHYSICAL_MAPPING_START <= pages.start.start_addr.0 <= KERNEL_PHYSICAL_MAPPING_END,
            Self::first_page_of(pages) > 0,
            is_used_run(old(self).allocator@, Self::first_page_of(pages), pages.num_pages as int),
        ensures
            final(self).wf(),
            final(self).allocator@ == set_range(
                old(self).allocator@,
                Self::first_page_of(pages),
                pages.num_pages as int,
                false,
            ),
    {
        proof {
            self.allocator.lemma_len_fits();
        }
        let start_addr = pages.start_addr().to_phys_addr();
        let start_page = (start_addr.as_u64() / pages.page_size().size_bytes() as u64) as usize;
        assert(start_page == Self::first_page_of(pages));
        self.allocator.free_contiguous(start_page, pages.num_pages());
        assert(self.allocator@[0]);
    }

    /// The number of the page that `page` starts, counted in pages of its
    /// size from the start of physical memory.
    pub open spec fn page_index(page: Page<KernPhysAddr>) -> int {
        (page.start_addr.0 - KERNEL_PHYSICAL_MAPPING_START) / page.size.bytes()
    }

    /// Whether `page` can be freed: it lies in the kernel's mapping of
    /// physical memory, is not the zero page, and is in use.
    pub open spec fn can_free_page(&self, page: Page<KernPhysAddr>) -> bool {
        &&& KERNEL_PHYSICAL_MAPPING_START <= page.start_addr.0 <= KERNEL_PHYSICAL_MAPPING_END
        &&& Self::page_index(page) > 0
        &&& is_used_run(self.allocator@, Self::page_index(page), 1)
    }

    /// Frees one page, which must be in use.
    pub fn free_page(&mut self, page: Page<KernPhysAddr>)
        requires
            old(self).wf(),
            old(self).can_free_page(page),
        ensures
            final(self).wf(),
            final(self).allocator@ == set_range(old(self).allocator@, Self::page_index(page), 1, false),
    {
        self.free_pages(&PageRange::new(page, 1));
    }
}

} // verus!
