//! Bitmap allocator, used for physical memory allocation in the kernel.
//!
//! Each bit of the bitmap stands for one page of memory; a 1 means the page
//! is in use. Page `p` is bit `p % 8` of byte `p / 8`.

pub mod allocator;
pub mod bootstrap;
pub mod chunk;

use vstd::prelude::*;

use self::allocator::{has_no_free_run, is_first_free_run};
use self::chunk::{byte_is_full, is_free_run, pages_of, set_range, BitChunk};

verus! {

pub struct BitmapAllocator {
    /// The bitmap used to track allocations. Each bit represents a page of
    /// memory, and a 1 indicates that the page is in use.
    bitmap: Vec<u8>,
}

impl View for BitmapAllocator {
    type V = Seq<bool>;

    /// One entry per page, `true` for a page in use.
    open spec fn view(&self) -> Seq<bool> {
        pages_of(self.bytes())
    }
}

impl BitmapAllocator {
    /// The page count fits in a `usize`.
    pub closed spec fn wf(&self) -> bool {
        self.bitmap.len() * 8 <= usize::MAX
    }

    /// The bytes of the bitmap.
    pub closed spec fn bytes(&self) -> Seq<u8> {
        self.bitmap@
    }

    pub fn new(bitmap: Vec<u8>) -> (r: BitmapAllocator)
        requires
            bitmap.len() * 8 <= usize::MAX,
        ensures
            r.wf(),
            r.bytes() == bitmap@,
            r@ == pages_of(bitmap@),
    {
        BitmapAllocator { bitmap }
    }

    /// The bitmap, one byte per eight pages.
    pub fn bitmap(&self) -> (r: &Vec<u8>)
        ensures
            r@ == self.bytes(),
            pages_of(r@) == self@,
    {
        &self.bitmap
    }

    /// Number of pages the bitmap tracks.
    pub fn num_pages(&self) -> (r: usize)
        requires
            self.wf(),
        ensures
            r == self@.len(),
    {
        self.bitmap.len() * 8
    }

    /// Mark a given page as used. This is used internally by the allocator,
    /// but is also used by the kernel to mark reserved pages as used when
    /// initializing the allocator.
    pub fn mark_used(&mut self, page: usize)
        requires
            old(self).wf(),
            page < old(self)@.len(),
        ensures
            final(self).wf(),
            final(self)@ == old(self)@.update(page as int, true),
    {
        proof {
            chunk::lemma_page_in_chunks(page as int, self.bitmap.len() as int, 8);
            chunk::lemma_page_position(page as int, 8);
        }
        let index = page / 8;
        let bit = page % 8;
        let byte = self.bitmap[index].with_bit_set(bit);
        proof {
            chunk::lemma_pages_of_update(self.bitmap@, index as int, byte);
        }
        self.bitmap.set(index, byte);
        proof {
            assert forall|p: int| 0 <= p < self@.len() implies #[trigger] self@[p] == old(
                self,
            )@.update(page as int, true)[p] by {
                chunk::lemma_page_position(p, 8);
            }
        }
        assert(self@ =~= old(self)@.update(page as int, true));
    }

    fn mark_unused(&mut self, page: usize)
        requires
            old(self).wf(),
            page < old(self)@.len(),
        ensures
            final(self).wf(),
            final(self)@ == old(self)@.update(page as int, false),
    {
        proof {
            chunk::lemma_page_in_chunks(page as int, self.bitmap.len() as int, 8);
            chunk::lemma_page_position(page as int, 8);
        }
        let index = page / 8;
        let bit = page % 8;
        let byte = self.bitmap[index].with_bit_cleared(bit);
        proof {
            chunk::lemma_pages_of_update(self.bitmap@, index as int, byte);
        }
        self.bitmap.set(index, byte);
        proof {
            assert forall|p: int| 0 <= p < self@.len() implies #[trigger] self@[p] == old(
                self,
            )@.update(page as int, false)[p] by {
                chunk::lemma_page_position(p, 8);
            }
        }
        assert(self@ =~= old(self)@.update(page as int, false));
    }
}

impl BitmapAllocator {
    /// Allocates a contiguous block of memory of the given size, and returns
    /// the starting page of the block. Returns `None` if no such block exists.
    /// The block is the first run of `num_pages` free pages; a request for no
    /// pages gets `None`.
    pub fn allocate_contiguous(&mut self, num_pages: usize) -> (r: Option<usize>)
        requires
            old(self).wf(),
        ensures
            final(self).wf(),
            num_pages == 0 ==> r is None,
            match r {
                Some(s) => {
                    &&& is_first_free_run(old(self)@, s as int, num_pages as int)
                    &&& final(self)@ == set_range(old(self)@, s as int, num_pages as int, true)
                },
                None => {
                    &&& (num_pages == 0 || has_no_free_run(old(self)@, num_pages as int))
                    &&& final(self).bytes() == old(self).bytes()
                },
            },
    {
        let start = self.find_next_contiguous(num_pages)?;
        let mut page = start;
        while page < start + num_pages
            invariant
                self.wf(),
                is_free_run(old(self)@, start as int, num_pages as int),
                start <= page <= start + num_pages,
                self@.len() == old(self)@.len(),
                self@ == set_range(old(self)@, start as int, page - start, true),
            decreases start + num_pages - page,
        {
            self.mark_used(page);
            page += 1;
            assert(self@ =~= set_range(old(self)@, start as int, page - start, true));
        }
        Some(start)
    }

    /// Finds the starting page of the first contiguous block of free memory
    /// of the given size. Returns `None` if no such block exists, or no pages
    /// are asked for.
    fn find_next_contiguous(&self, num_pages: usize) -> (r: Option<usize>)
        requires
            self.wf(),
        ensures
            num_pages == 0 ==> r is None,
            match r {
                Some(s) => is_first_free_run(self@, s as int, num_pages as int),
                None => num_pages == 0 || has_no_free_run(self@, num_pages as int),
            },
    {
        if num_pages == 0 {
            return None;
        }
        let ghost v = self@;
        let ghost n = num_pages as int;
        let mut start: usize = 0;
        let mut current_len: usize = 0;
        let mut i: usize = 0;
        while i < self.bitmap.len()
            invariant
                v == self@,
                v == pages_of(self.bitmap@),
                v.len() == 8 * self.bitmap@.len(),
                self.wf(),
                n == num_pages,
                n > 0,
                i <= self.bitmap.len(),
                start + current_len == i * 8,
                current_len < n,
                forall|q: int| start <= q < start + current_len ==> !#[trigger] v[q],
                forall|t: int| 0 <= t < start ==> !#[trigger] is_free_run(v, t, n),
            decreases self.bitmap.len() - i,
        {
            let byte = self.bitmap[i];
            // Shortcut: if the byte is 0xFF, then we know that all bits are
            // set, so no free run can reach past it: the next candidate run
            // starts after it.
            if byte_is_full(byte) {
                proof {
                    assert forall|t: int| 0 <= t < i * 8 + 8 implies !#[trigger] is_free_run(v, t, n) by {
                        if t >= start {
                            let q = if t >= i * 8 { t } else { i * 8 };
                            assert(v[q] == byte.bit_spec((q - i * 8) as nat)) by {
                                vstd::arithmetic::div_mod::lemma_fundamental_div_mod_converse(
                                    q,
                                    8,
                                    i as int,
                                    q - i * 8,
                                );
                            }
                            assert(v[q]);
                            assert(t <= q < t + n);
                        }
                    }
                }
                start = i * 8 + 8;
                current_len = 0;
                i += 1;
                continue;
            }
            let mut bit: usize = 0;
            while bit < 8
                invariant
                    v == self@,
                    v == pages_of(self.bitmap@),
                    v.len() == 8 * self.bitmap@.len(),
                    self.wf(),
                    n == num_pages,
                    n > 0,
                    i < self.bitmap.len(),
                    byte == self.bitmap@[i as int],
                    bit <= 8,
                    start + current_len == i * 8 + bit,
                    current_len < n,
                    forall|q: int| start <= q < start + current_len ==> !#[trigger] v[q],
                    forall|t: int| 0 <= t < start ==> !#[trigger] is_free_run(v, t, n),
                decreases 8 - bit,
            {
                let ghost p = i * 8 + bit;
                proof {
                    vstd::arithmetic::div_mod::lemma_fundamental_div_mod_converse(
                        p,
                        8,
                        i as int,
                        bit as int,
                    );
                    assert(v[p] == byte.bit_spec(bit as nat));
                }
                let bit_free = !byte.test_bit(bit);
                if bit_free {
                    current_len += 1;
                    if current_len == num_pages {
                        return Some(start);
                    }
                } else {
                    proof {
                        assert forall|t: int| 0 <= t < p + 1 implies !#[trigger] is_free_run(v, t, n) by {
                            if t >= start {
                                assert(v[p]);
                                assert(t <= p < t + n);
                            }
                        }
                    }
                    // Set start to the next bit, since we know that the
                    // current bit is not free.
                    start = i * 8 + bit + 1;
                    current_len = 0;
                }
                bit += 1;
            }
            i += 1;
        }
        proof {
            assert forall|t: int| 0 <= t implies !#[trigger] is_free_run(v, t, n) by {
                if t >= start {
                    assert(t + n > v.len());
                }
            }
        }
        None
    }

    /// Frees a contiguous block of memory of the given size, starting at the
    /// given page.
    pub fn free_contiguous(&mut self, start_page: usize, num_pages: usize)
        requires
            old(self).wf(),
            start_page + num_pages <= old(self)@.len(),
        ensures
            final(self).wf(),
            final(self)@ == set_range(old(self)@, start_page as int, num_pages as int, false),
    {
        let mut page = start_page;
        while page < start_page + num_pages
            invariant
                self.wf(),
                start_page + num_pages <= self@.len(),
                start_page <= page <= start_page + num_pages,
                self@.len() == old(self)@.len(),
                self@ == set_range(old(self)@, start_page as int, page - start_page, false),
            decreases start_page + num_pages - page,
        {
            self.mark_unused(page);
            page += 1;
            assert(self@ =~= set_range(old(self)@, start_page as int, page - start_page, false));
        }
    }
}

} // verus!
