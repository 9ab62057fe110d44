//! Bitmap allocator over chunks of any integer width, which checks that it
//! only marks free pages used and used pages free.

use vstd::prelude::*;

use super::chunk::{
    is_free_run, is_used_run, lemma_page_in_chunks, lemma_page_position, lemma_pages_of_update,
    pages_of, set_range, BitChunk,
};

verus! {

pub struct BitmapAllocator<C> {
    /// The bitmap used to track allocations. Each bit represents a page of
    /// memory, and a 1 indicates that the page is in use.
    bitmap: Vec<C>,
}

impl<C: BitChunk> View for BitmapAllocator<C> {
    type V = Seq<bool>;

    /// One entry per page, `true` for a page in use.
    open spec fn view(&self) -> Seq<bool> {
        pages_of(self.chunks())
    }
}

/// Whether `s` is where the first run of `n` free pages of `v` starts.
pub open spec fn is_first_free_run(v: Seq<bool>, s: int, n: int) -> bool {
    &&& is_free_run(v, s, n)
    &&& forall|t: int| 0 <= t < s ==> !#[trigger] is_free_run(v, t, n)
}

/// Whether `v` holds no run of `n` free pages.
pub open spec fn has_no_free_run(v: Seq<bool>, n: int) -> bool {
    forall|t: int| 0 <= t ==> !#[trigger] is_free_run(v, t, n)
}

impl<C: BitChunk> BitmapAllocator<C> {
    /// The chunks of the bitmap.
    pub closed spec fn chunks(&self) -> Seq<C> {
        self.bitmap@
    }

    /// The page count fits in a `usize`.
    pub closed spec fn wf(&self) -> bool {
        self.bitmap.len() * C::bits_spec() <= usize::MAX
    }

    /// A well-formed allocator's page count fits in a `usize`.
    pub proof fn lemma_len_fits(&self)
        requires
            self.wf(),
        ensures
            self@.len() <= usize::MAX,
    {
    }

    pub fn new(bitmap: Vec<C>) -> (r: Self)
        requires
            bitmap.len() * C::bits_spec() <= usize::MAX,
        ensures
            r.wf(),
            r.chunks() == bitmap@,
    {
        BitmapAllocator { bitmap }
    }

    /// Number of pages each chunk of the bitmap holds.
    pub fn bits_per_chunk() -> (r: usize)
        ensures
            r == C::bits_spec(),
            0 < r <= 64,
    {
        C::bits()
    }

    /// The bitmap.
    pub fn bitmap(&self) -> (r: &Vec<C>)
        ensures
            r@ == self.chunks(),
    {
        &self.bitmap
    }

    /// Number of pages the bitmap tracks.
    pub fn num_pages(&self) -> (r: usize)
        requires
            self.wf(),
        ensures
            r == self@.len(),
    {
        self.bitmap.len() * C::bits()
    }

    /// Whether the given page is in use.
    pub fn is_used(&self, page: usize) -> (r: bool)
        requires
            self.wf(),
            page < self@.len(),
        ensures
            r == self@[page as int],
    {
        let bits = C::bits();
        proof {
            lemma_page_in_chunks(page as int, self.bitmap.len() as int, bits as int);
            lemma_page_position(page as int, bits as int);
        }
        self.bitmap[page / bits].test_bit(page % bits)
    }

    /// Mark a given page as used. This is used internally by the allocator,
    /// but is also used by the kernel to mark reserved pages as used when
    /// initializing the allocator. The page must be free.
    pub fn mark_used(&mut self, page: usize)
        requires
            old(self).wf(),
            page < old(self)@.len(),
            !old(self)@[page as int],
        ensures
            final(self).wf(),
            final(self)@ == old(self)@.update(page as int, true),
    {
        self.set_page(page, true);
    }

    /// Mark a given page as free. The page must be in use.
    pub fn mark_unused(&mut self, page: usize)
        requires
            old(self).wf(),
            page < old(self)@.len(),
            old(self)@[page as int],
        ensures
            final(self).wf(),
            final(self)@ == old(self)@.update(page as int, false),
    {
        self.set_page(page, false);
    }

    fn set_page(&mut self, page: usize, used: bool)
        requires
            old(self).wf(),
            page < old(self)@.len(),
        ensures
            final(self).wf(),
            final(self)@ == old(self)@.update(page as int, used),
    {
        let bits = C::bits();
        proof {
            lemma_page_in_chunks(page as int, self.bitmap.len() as int, bits as int);
            lemma_page_position(page as int, bits as int);
        }
        let index = page / bits;
        let bit = page % bits;
        let chunk = if used {
            self.bitmap[index].with_bit_set(bit)
        } else {
            self.bitmap[index].with_bit_cleared(bit)
        };
        proof {
            lemma_pages_of_update(self.bitmap@, index as int, chunk);
        }
        self.bitmap.set(index, chunk);
        proof {
            assert forall|p: int| 0 <= p < self@.len() implies #[trigger] self@[p] == old(
                self,
            )@.update(page as int, used)[p] by {
                lemma_page_position(p, bits as int);
                lemma_page_position(page as int, bits as int);
                if p / (bits as int) == index as int && p % (bits as int) == bit as int {
                    assert(p == page);
                }
            }
        }
        assert(self@ =~= old(self)@.update(page as int, used));
    }

    /// Allocates a contiguous block of memory of the given size, and returns
    /// the starting page of the block: the first run of that many free pages.
    /// Returns `None` if no such block exists.
    pub fn allocate_contiguous(&mut self, num_pages: usize) -> (r: Option<usize>)
        requires
            old(self).wf(),
            num_pages > 0,
        ensures
            final(self).wf(),
            match r {
                Some(s) => {
                    &&& is_first_free_run(old(self)@, s as int, num_pages as int)
                    &&& final(self)@ == set_range(old(self)@, s as int, num_pages as int, true)
                },
                None => {
                    &&& has_no_free_run(old(self)@, num_pages as int)
                    &&& final(self).chunks() == old(self).chunks()
                },
            },
    {
        let start = self.find_next_contiguous(num_pages)?;
        let mut page = start;
        while page < start + num_pages
            invariant
                self.wf(),
                is_free_run(old(self)@, start as int, num_pages as int),
                start <= page <= start + num_pages,
                self@.len() == old(self)@.len(),
                self@ == set_range(old(self)@, start as int, page - start, true),
            decreases start + num_pages - page,
        {
            self.mark_used(page);
            page += 1;
            assert(self@ =~= set_range(old(self)@, start as int, page - start, true));
        }
        Some(start)
    }

    /// Finds the starting page of the first contiguous block of free memory
    /// of the given size. Returns `None` if no such block exists.
    fn find_next_contiguous(&self, num_pages: usize) -> (r: Option<usize>)
        requires
            self.wf(),
            num_pages > 0,
        ensures
            match r {
                Some(s) => is_first_free_run(self@, s as int, num_pages as int),
                None => has_no_free_run(self@, num_pages as int),
            },
    {
        let ghost v = self@;
        let ghost n = num_pages as int;
        let bits = C::bits();
        let mut start: usize = 0;
        let mut current_len: usize = 0;
        let mut i: usize = 0;
        while i < self.bitmap.len()
            invariant
                v == self@,
                self.wf(),
                n == num_pages,
                n > 0,
                bits == C::bits_spec(),
                bits > 0,
                i <= self.bitmap.len(),
                start + current_len == i * bits,
                current_len < n,
                forall|q: int| start <= q < start + current_len ==> !#[trigger] v[q],
                forall|t: int| 0 <= t < start ==> !#[trigger] is_free_run(v, t, n),
            decreases self.bitmap.len() - i,
        {
            let chunk = self.bitmap[i];
            assert((i + 1) * bits <= self.bitmap.len() * bits) by (nonlinear_arith)
                requires
                    i < self.bitmap.len(),
                    bits > 0,
            ;
            let mut bit: usize = 0;
            while bit < bits
                invariant
                    v == self@,
                    self.wf(),
                    n == num_pages,
                    n > 0,
                    bits == C::bits_spec(),
                    i < self.bitmap.len(),
                    (i + 1) * bits <= self.bitmap.len() * bits,
                    chunk == self.bitmap@[i as int],
                    bit <= bits,
                    start + current_len == i * bits + bit,
                    current_len < n,
                    forall|q: int| start <= q < start + current_len ==> !#[trigger] v[q],
                    forall|t: int| 0 <= t < start ==> !#[trigger] is_free_run(v, t, n),
                decreases bits - bit,
            {
                let ghost p = i * bits + bit;
                proof {
                    assert(i * bits + bit < (i + 1) * bits) by (nonlinear_arith)
                        requires
                            bit < bits,
                    ;
                    vstd::arithmetic::div_mod::lemma_fundamental_div_mod_converse(
                        p,
                        bits as int,
                        i as int,
                        bit as int,
                    );
                    assert(v[p] == chunk.bit_spec(bit as nat));
                }
                let bit_free = !chunk.test_bit(bit);
                if bit_free {
                    current_len += 1;
                    if current_len == num_pages {
                        return Some(start);
                    }
                } else {
                    proof {
                        assert forall|t: int| 0 <= t < p + 1 implies !#[trigger] is_free_run(
                            v,
                            t,
                            n,
                        ) by {
                            if t >= start {
                                assert(v[p]);
                                assert(t <= p < t + n);
                            }
                        }
                    }
                    // Set start to the next bit, since we know that the
                    // current bit is not free.
                    start = i * bits + bit + 1;
                    current_len = 0;
                }
                bit += 1;
            }
            assert(i * bits + bits == (i + 1) * bits) by (nonlinear_arith);
            i += 1;
        }
        proof {
            assert forall|t: int| 0 <= t implies !#[trigger] is_free_run(v, t, n) by {
                if t >= start {
                    assert(t + n > v.len());
                }
            }
        }
        None
    }

    /// Frees a contiguous block of memory of the given size, starting at the
    /// given page. Every page of the block must be in use.
    pub fn free_contiguous(&mut self, start_page: usize, num_pages: usize)
        requires
            old(self).wf(),
            is_used_run(old(self)@, start_page as int, num_pages as int),
        ensures
            final(self).wf(),
            final(self)@ == set_range(old(self)@, start_page as int, num_pages as int, false),
    {
        let mut page = start_page;
        while page < start_page + num_pages
            invariant
                self.wf(),
                is_used_run(old(self)@, start_page as int, num_pages as int),
                start_page <= page <= start_page + num_pages,
                self@.len() == old(self)@.len(),
                self@ == set_range(old(self)@, start_page as int, page - start_page, false),
            decreases start_page + num_pages - page,
        {
            self.mark_unused(page);
            page += 1;
            assert(self@ =~= set_range(old(self)@, start_page as int, page - start_page, false));
        }
    }
}

/// The pages of `len` pages that lie in one of the blocks `blocks`, each
/// block given by its first page and its number of pages.
pub open spec fn covered(len: nat, blocks: Seq<(int, int)>) -> Seq<bool> {
    Seq::new(
        len,
        |p: int| exists|k: int| 0 <= k < blocks.len() && #[trigger] in_block(blocks[k], p),
    )
}

pub open spec fn in_block(block: (int, int), p: int) -> bool {
    block.0 <= p < block.0 + block.1
}

/// Whether the blocks are non-empty, lie within `len` pages, and share no page.
pub open spec fn blocks_valid(len: nat, blocks: Seq<(int, int)>) -> bool {
    &&& forall|k: int|
        0 <= k < blocks.len() ==> 0 <= (#[trigger] blocks[k]).0 && 0 < blocks[k].1 && blocks[k].0
            + blocks[k].1 <= len
    &&& forall|k: int, l: int, p: int|
        0 <= k < blocks.len() && 0 <= l < blocks.len() && k != l ==> !(#[trigger] in_block(
            blocks[k],
            p,
        ) && #[trigger] in_block(blocks[l], p))
}

/// Freeing a block right after allocating it gives back the bitmap as it was
/// before the allocation, and every page of the block is in use in between,
/// as `free_contiguous` requires.
pub proof fn lemma_free_undoes_allocate(v: Seq<bool>, s: int, n: int)
    requires
        is_free_run(v, s, n),
    ensures
        is_used_run(set_range(v, s, n, true), s, n),
        set_range(set_range(v, s, n, true), s, n, false) == v,
{
    assert(set_range(set_range(v, s, n, true), s, n, false) =~= v);
}

/// A bitmap with no page in use holds exactly the pages of no block.
pub proof fn lemma_no_blocks_covers_nothing(len: nat)
    ensures
        covered(len, Seq::empty()) == Seq::new(len, |p: int| false),
        blocks_valid(len, Seq::empty()),
{
    assert(covered(len, Seq::empty()) =~= Seq::new(len, |p: int| false));
}

/// When the pages in use are exactly those of the blocks handed out so far,
/// allocating a new block at a free run keeps it that way, with the new block
/// added to the list.
pub proof fn lemma_allocate_tracks_blocks(v: Seq<bool>, blocks: Seq<(int, int)>, s: int, n: int)
    requires
        v == covered(v.len(), blocks),
        blocks_valid(v.len(), blocks),
        is_free_run(v, s, n),
        n > 0,
    ensures
        set_range(v, s, n, true) == covered(v.len(), blocks.push((s, n))),
        blocks_valid(v.len(), blocks.push((s, n))),
{
    let nb = blocks.push((s, n));
    assert forall|p: int| 0 <= p < v.len() implies #[trigger] set_range(v, s, n, true)[p] == covered(
        v.len(),
        nb,
    )[p] by {
        if s <= p < s + n {
            assert(in_block(nb[blocks.len() as int], p));
        } else {
            if covered(v.len(), nb)[p] {
                let k = choose|k: int| 0 <= k < nb.len() && #[trigger] in_block(nb[k], p);
                assert(k < blocks.len());
                assert(in_block(blocks[k], p));
            }
            if v[p] {
                let k = choose|k: int| 0 <= k < blocks.len() && #[trigger] in_block(blocks[k], p);
                assert(nb[k] == blocks[k]);
                assert(in_block(nb[k], p));
            }
        }
    }
    assert(set_range(v, s, n, true) =~= covered(v.len(), nb));
    assert forall|k: int, l: int, p: int|
        0 <= k < nb.len() && 0 <= l < nb.len() && k != l implies !(#[trigger] in_block(nb[k], p)
        && #[trigger] in_block(nb[l], p)) by {
        if k < blocks.len() && l < blocks.len() {
            assert(nb[k] == blocks[k] && nb[l] == blocks[l]);
        } else if k < blocks.len() {
            assert(nb[k] == blocks[k]);
            if in_block(nb[k], p) && in_block(nb[l], p) {
                assert(v[p]);
            }
        } else {
            assert(nb[l] == blocks[l]);
            if in_block(nb[k], p) && in_block(nb[l], p) {
                assert(v[p]);
            }
        }
    }
}

/// When the pages in use are exactly those of the blocks handed out so far,
/// every page of one of those blocks is in use, and freeing the block leaves
/// the pages in use exactly those of the other blocks.
pub proof fn lemma_free_tracks_blocks(v: Seq<bool>, blocks: Seq<(int, int)>, k: int)
    requires
        v == covered(v.len(), blocks),
        blocks_valid(v.len(), blocks),
        0 <= k < blocks.len(),
    ensures
        is_used_run(v, blocks[k].0, blocks[k].1),
        set_range(v, blocks[k].0, blocks[k].1, false) == covered(v.len(), blocks.remove(k)),
        blocks_valid(v.len(), blocks.remove(k)),
{
    let b = blocks[k];
    let nb = blocks.remove(k);
    assert forall|p: int| b.0 <= p < b.0 + b.1 implies #[trigger] v[p] by {
        assert(in_block(blocks[k], p));
    }
    assert forall|p: int| 0 <= p < v.len() implies #[trigger] set_range(v, b.0, b.1, false)[p]
        == covered(v.len(), nb)[p] by {
        if b.0 <= p < b.0 + b.1 {
            if covered(v.len(), nb)[p] {
                let j = choose|j: int| 0 <= j < nb.len() && #[trigger] in_block(nb[j], p);
                let jj = if j < k { j } else { j + 1 };
                assert(nb[j] == blocks[jj]);
                assert(in_block(blocks[k], p));
            }
        } else {
            if covered(v.len(), nb)[p] {
                let j = choose|j: int| 0 <= j < nb.len() && #[trigger] in_block(nb[j], p);
                let jj = if j < k { j } else { j + 1 };
                assert(nb[j] == blocks[jj]);
                assert(in_block(blocks[jj], p));
            }
            if v[p] {
                let j = choose|j: int| 0 <= j < blocks.len() && #[trigger] in_block(blocks[j], p);
                assert(j != k);
                let jj = if j < k { j } else { j - 1 };
                assert(nb[jj] == blocks[j]);
                assert(in_block(nb[jj], p));
            }
        }
    }
    assert(set_range(v, b.0, b.1, false) =~= covered(v.len(), nb));
    assert forall|i: int, j: int, p: int|
        0 <= i < nb.len() && 0 <= j < nb.len() && i != j implies !(#[trigger] in_block(nb[i], p)
        && #[trigger] in_block(nb[j], p)) by {
        let ii = if i < k { i } else { i + 1 };
        let jj = if j < k { j } else { j + 1 };
        assert(nb[i] == blocks[ii] && nb[j] == blocks[jj]);
    }
    assert forall|i: int| 0 <= i < nb.len() implies 0 <= (#[trigger] nb[i]).0 && 0 < nb[i].1
        && nb[i].0 + nb[i].1 <= v.len() by {
        let ii = if i < k { i } else { i + 1 };
        assert(nb[i] == blocks[ii]);
    }
}

} // verus!
