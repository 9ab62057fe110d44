//! Bootstrapping the physical memory allocator from the bootloader's memory
//! map: sizing the bitmap, placing it in free memory, and marking pages.

use vstd::prelude::*;

use super::allocator::BitmapAllocator;
use super::chunk::{pages_of, set_range, BitChunk};

verus! {

/// A region of memory that is either free or occupied. These are usually given
/// to the kernel from the bootloader, and this type exists to give a layer of
/// indirection between the bootloader memory region type and the allocator.
#[derive(Debug, Clone, Copy)]
pub struct MemoryRegion {
    pub start_address: usize,
    pub len_bytes: u64,
    pub free: bool,
}

/// The address just past the end of the region.
pub open spec fn region_end(r: MemoryRegion) -> int {
    r.start_address + (r.len_bytes as usize)
}

/// `value` rounded up to a multiple of `page_size`.
pub open spec fn round_up(value: int, page_size: int) -> int {
    if value % page_size == 0 {
        value
    } else {
        value + (page_size - value % page_size)
    }
}

/// `value` rounded down to a multiple of `page_size`.
pub open spec fn round_down(value: int, page_size: int) -> int {
    value - value % page_size
}

/// The page-aligned start and end of a region: a free region shrinks to the
/// whole pages inside it and is `None` if there are none; an occupied region
/// grows to the whole pages that touch it.
pub open spec fn aligned_range(r: MemoryRegion, page_size: int) -> Option<(int, int)> {
    if r.free {
        let start = round_up(r.start_address as int, page_size);
        let end = round_down(region_end(r), page_size);
        if end <= start {
            None
        } else {
            Some((start, end))
        }
    } else {
        Some((round_down(r.start_address as int, page_size), round_up(region_end(r), page_size)))
    }
}

/// Start of the region's page-aligned range.
pub open spec fn aligned_start(r: MemoryRegion, page_size: int) -> int {
    match aligned_range(r, page_size) {
        Some((s, _)) => s,
        None => 0,
    }
}

/// End of the region's page-aligned range.
pub open spec fn aligned_end(r: MemoryRegion, page_size: int) -> int {
    match aligned_range(r, page_size) {
        Some((_, e)) => e,
        None => 0,
    }
}

/// Whether the region's page-aligned bounds can be computed without overflow.
pub open spec fn region_fits(r: MemoryRegion, page_size: int) -> bool {
    &&& region_end(r) <= usize::MAX
    &&& r.free ==> round_up(r.start_address as int, page_size) <= usize::MAX
    &&& !r.free ==> round_up(region_end(r), page_size) <= usize::MAX
}

/// Rounding up by a positive page size gives a multiple of the page size
/// less than one page above the value.
pub proof fn lemma_round_up(value: int, page_size: int)
    requires
        0 <= value,
        0 < page_size,
    ensures
        round_up(value, page_size) % page_size == 0,
        value <= round_up(value, page_size) < value + page_size,
{
    vstd::arithmetic::div_mod::lemma_fundamental_div_mod(value, page_size);
    let q = value / page_size;
    let r = value % page_size;
    if r != 0 {
        assert(round_up(value, page_size) == (q + 1) * page_size) by (nonlinear_arith)
            requires
                value == page_size * q + r,
                round_up(value, page_size) == value + (page_size - r),
        ;
        vstd::arithmetic::div_mod::lemma_mod_multiples_basic(q + 1, page_size);
    }
}

/// No multiple of the page size lies between a value and the value rounded up.
pub proof fn lemma_round_up_least(value: int, page_size: int, m: int)
    requires
        0 <= value,
        0 < page_size,
        m % page_size == 0,
        value <= m,
    ensures
        round_up(value, page_size) <= m,
{
    vstd::arithmetic::div_mod::lemma_fundamental_div_mod(value, page_size);
    vstd::arithmetic::div_mod::lemma_fundamental_div_mod(m, page_size);
    let q = value / page_size;
    let r = value % page_size;
    let mq = m / page_size;
    if r != 0 {
        assert(round_up(value, page_size) == (q + 1) * page_size) by (nonlinear_arith)
            requires
                value == page_size * q + r,
                round_up(value, page_size) == value + (page_size - r),
        ;
        assert(mq > q) by (nonlinear_arith)
            requires
                m == page_size * mq,
                value == page_size * q + r,
                0 < r < page_size,
                value <= m,
        ;
        assert((q + 1) * page_size <= m) by (nonlinear_arith)
            requires
                mq >= q + 1,
                m == page_size * mq,
                page_size > 0,
        ;
    }
}

/// Rounding down by a positive page size gives the greatest multiple of the
/// page size at or below the value.
pub proof fn lemma_round_down(value: int, page_size: int)
    requires
        0 <= value,
        0 < page_size,
    ensures
        round_down(value, page_size) % page_size == 0,
        value - page_size < round_down(value, page_size) <= value,
        0 <= round_down(value, page_size),
{
    vstd::arithmetic::div_mod::lemma_fundamental_div_mod(value, page_size);
    let q = value / page_size;
    assert(round_down(value, page_size) == q * page_size) by (nonlinear_arith)
        requires
            value == page_size * q + value % page_size,
    ;
    vstd::arithmetic::div_mod::lemma_mod_multiples_basic(q, page_size);
    assert(q >= 0) by (nonlinear_arith)
        requires
            value == page_size * q + value % page_size,
            0 <= value % page_size < page_size,
            value >= 0,
    ;
    assert(q * page_size >= 0) by (nonlinear_arith)
        requires
            q >= 0,
            page_size > 0,
    ;
}

fn shift_up_page_size(value: usize, page_size: usize) -> (r: usize)
    requires
        page_size > 0,
        round_up(value as int, page_size as int) <= usize::MAX,
    ensures
        r == round_up(value as int, page_size as int),
{
    let shift = if value % page_size == 0 {
        0
    } else {
        page_size - value % page_size
    };
    value + shift
}

fn shift_down_page_size(value: usize, page_size: usize) -> (r: usize)
    requires
        page_size > 0,
    ensures
        r == round_down(value as int, page_size as int),
{
    proof {
        lemma_round_down(value as int, page_size as int);
    }
    value - value % page_size
}

impl MemoryRegion {
    /// Aligns the region to the given page size. This is useful for ensuring
    /// that the region covers entire pages, which is a requirement for the
    /// allocator.
    ///
    /// Note that free regions that aren't page-aligned are rounded _up_ to the
    /// page size, and non-free regions are rounded _down_ to the page size.
    /// This ensures that non-free regions take precedence over free regions in
    /// a given page.
    ///
    /// Returns `None` if the region is too small to be aligned to the given
    /// page size.
    pub fn page_aligned_start_end_address(&self, page_size: usize) -> (r: Option<(usize, usize)>)
        requires
            page_size > 0,
            region_fits(*self, page_size as int),
        ensures
            r == (match aligned_range(*self, page_size as int) {
                Some((s, e)) => Some((s as usize, e as usize)),
                None => None,
            }),
            r matches Some((s, e)) ==> aligned_range(*self, page_size as int) == Some(
                (s as int, e as int),
            ),
            r matches Some((s, e)) ==> s < e || !self.free,
            r matches Some((s, e)) ==> s <= e,
            r matches Some((s, e)) ==> s % page_size == 0 && e % page_size == 0,
    {
        proof {
            lemma_round_up(self.start_address as int, page_size as int);
            lemma_round_down(self.start_address as int, page_size as int);
            lemma_round_up(region_end(*self), page_size as int);
            lemma_round_down(region_end(*self), page_size as int);
        }
        if self.free {
            let aligned_start = shift_up_page_size(self.start_address, page_size);

            let end = self.start_address + self.len_bytes as usize;
            let aligned_end = shift_down_page_size(end, page_size);

            if aligned_end <= aligned_start {
                return None;
            }
            Some((aligned_start, aligned_end))
        } else {
            let aligned_start = shift_down_page_size(self.start_address, page_size);

            let end = self.start_address + self.len_bytes as usize;
            let aligned_end = shift_up_page_size(end, page_size);

            Some((aligned_start, aligned_end))
        }
    }
}

/// `a / b` rounded up.
pub open spec fn ceil_div(a: int, b: int) -> int {
    if a % b == 0 {
        a / b
    } else {
        a / b + 1
    }
}

/// The largest end address among the regions (0 for no regions).
pub open spec fn max_region_end(regions: Seq<MemoryRegion>) -> int
    decreases regions.len(),
{
    if regions.len() == 0 {
        0
    } else {
        let rest = max_region_end(regions.drop_last());
        let last = region_end(regions.last());
        if rest >= last {
            rest
        } else {
            last
        }
    }
}

/// Number of 64-bit words a bitmap needs to hold one bit per page of all the
/// memory the regions reach.
pub open spec fn bitmap_words(regions: Seq<MemoryRegion>, page_size: int) -> int {
    ceil_div(ceil_div(max_region_end(regions), page_size), 64)
}

/// Number of bytes the bitmap takes: eight per 64-bit word.
pub open spec fn bitmap_bytes(regions: Seq<MemoryRegion>, page_size: int) -> int {
    8 * bitmap_words(regions, page_size)
}

/// Whether the region is free and its whole pages span at least `len` bytes.
pub open spec fn can_hold_bitmap(r: MemoryRegion, page_size: int, len: int) -> bool {
    &&& r.free
    &&& aligned_range(r, page_size) is Some
    &&& len <= aligned_end(r, page_size) - aligned_start(r, page_size)
}

/// Whether region `k` is the first one that can hold the bitmap.
pub open spec fn is_bitmap_region(regions: Seq<MemoryRegion>, page_size: int, k: int) -> bool {
    let len = bitmap_bytes(regions, page_size);
    &&& 0 <= k < regions.len()
    &&& can_hold_bitmap(regions[k], page_size, len)
    &&& forall|j: int| 0 <= j < k ==> !#[trigger] can_hold_bitmap(regions[j], page_size, len)
}

/// Whether page `p` is one of the whole pages of the region, page-aligned as
/// `aligned_range` says.
pub open spec fn in_aligned_pages(r: MemoryRegion, page_size: int, p: int) -> bool {
    &&& aligned_range(r, page_size) is Some
    &&& aligned_start(r, page_size) / page_size <= p < aligned_end(r, page_size)
        / page_size
}

/// Whether page `p` is a page of one of the free regions.
pub open spec fn in_free_region(regions: Seq<MemoryRegion>, page_size: int, p: int) -> bool {
    exists|k: int|
        0 <= k < regions.len() && regions[k].free && #[trigger] in_aligned_pages(
            regions[k],
            page_size,
            p,
        )
}

/// The occupied region that stands for the bitmap's own storage: `words`
/// 64-bit words, eight bytes each, from `start` on.
pub open spec fn bitmap_storage_region(start: int, words: int) -> MemoryRegion {
    MemoryRegion { start_address: start as usize, len_bytes: (8 * words) as u64, free: false }
}

/// Whether `allocate_bitmap` was asked for the bitmap's storage of `words`
/// 64-bit words at `start`.
pub open spec fn bitmap_requested<A: Fn(usize, usize) -> Vec<u64>>(allocate_bitmap: A, start: int, words: int) -> bool {
    exists|v: Vec<u64>| #[trigger] call_ensures(allocate_bitmap, (start as usize, words as usize), v)
}

/// What the bootloader's memory map asks of the allocator's bootstrapping:
/// there is a region, page-aligned bounds do not overflow, some free region
/// can hold the bitmap, the bitmap's page count fits in a `usize`, and no page
/// belongs to two free regions.
pub open spec fn bootstrap_ready(regions: Seq<MemoryRegion>, page_size: int) -> bool {
    &&& page_size > 0
    &&& regions.len() > 0
    &&& forall|k: int| 0 <= k < regions.len() ==> #[trigger] region_fits(regions[k], page_size)
    &&& exists|k: int|
        0 <= k < regions.len() && #[trigger] can_hold_bitmap(
            regions[k],
            page_size,
            bitmap_bytes(regions, page_size),
        )
    &&& bitmap_words(regions, page_size) * 64 <= usize::MAX
    &&& forall|k: int, l: int, p: int|
        0 <= k < regions.len() && 0 <= l < regions.len() && k != l && regions[k].free
            && regions[l].free ==> !(#[trigger] in_aligned_pages(regions[k], page_size, p)
            && #[trigger] in_aligned_pages(regions[l], page_size, p))
}

/// The pages a freshly bootstrapped allocator holds as in use: every page
/// that is not a whole page of a free region, and the pages that hold the
/// bitmap itself.
pub open spec fn bootstrapped_pages(
    regions: Seq<MemoryRegion>,
    page_size: int,
    bitmap_start: int,
) -> Seq<bool> {
    let words = bitmap_words(regions, page_size);
    Seq::new(
        (words * 64) as nat,
        |p: int|
            !in_free_region(regions, page_size, p) || in_aligned_pages(
                bitmap_storage_region(bitmap_start, words),
                page_size,
                p,
            ),
    )
}

/// Every region ends at or before the largest end address.
pub proof fn lemma_max_region_end(regions: Seq<MemoryRegion>, k: int)
    requires
        0 <= k < regions.len(),
    ensures
        region_end(regions[k]) <= max_region_end(regions),
        0 <= max_region_end(regions),
    decreases regions.len(),
{
    if k < regions.len() - 1 {
        lemma_max_region_end(regions.drop_last(), k);
    } else if regions.len() > 1 {
        lemma_max_region_end(regions.drop_last(), 0);
    }
}

pub proof fn lemma_max_region_end_nonneg(regions: Seq<MemoryRegion>)
    ensures
        0 <= max_region_end(regions),
    decreases regions.len(),
{
    if regions.len() > 0 {
        lemma_max_region_end_nonneg(regions.drop_last());
    }
}

/// `ceil_div(a, b)` is the least count of `b`-sized pieces that cover `a`.
pub proof fn lemma_ceil_div(a: int, b: int)
    requires
        0 <= a,
        0 < b,
    ensures
        a <= ceil_div(a, b) * b,
        a / b <= ceil_div(a, b),
        0 <= ceil_div(a, b),
{
    vstd::arithmetic::div_mod::lemma_fundamental_div_mod(a, b);
    let q = a / b;
    assert(q >= 0) by (nonlinear_arith)
        requires
            a == b * q + a % b,
            0 <= a % b < b,
            a >= 0,
            b > 0,
    ;
    if a % b == 0 {
        assert(a <= q * b) by (nonlinear_arith)
            requires
                a == b * q + a % b,
                a % b == 0,
        ;
    } else {
        assert(a <= (q + 1) * b) by (nonlinear_arith)
            requires
                a == b * q + a % b,
                a % b < b,
        ;
    }
}

/// A region that ends at or before `limit` only has pages below `limit / page_size`.
pub proof fn lemma_pages_below(r: MemoryRegion, page_size: int, limit: int, p: int)
    requires
        page_size > 0,
        region_end(r) <= limit,
        r.free,
        in_aligned_pages(r, page_size, p),
    ensures
        p < limit / page_size,
{
    lemma_round_down(region_end(r), page_size);
    vstd::arithmetic::div_mod::lemma_div_is_ordered(
        aligned_end(r, page_size),
        limit,
        page_size,
    );
}

pub(crate) fn ceil_div_exec(a: usize, b: usize) -> (r: usize)
    requires
        b > 0,
    ensures
        r == ceil_div(a as int, b as int),
{
    proof {
        vstd::arithmetic::div_mod::lemma_fundamental_div_mod(a as int, b as int);
        assert(a as int / b as int <= a as int) by (nonlinear_arith)
            requires
                a >= 0,
                b > 0,
                a as int == b * (a as int / b as int) + a as int % b as int,
                0 <= a as int % b as int,
        ;
        if a as int % b as int != 0 && a as int / b as int == a as int {
            assert(false) by (nonlinear_arith)
                requires
                    b > 0,
                    a as int == b * (a as int / b as int) + a as int % b as int,
                    0 < a as int % b as int,
                    a as int / b as int == a as int,
                    a >= 0,
            ;
        }
    }
    if a % b == 0 {
        a / b
    } else {
        a / b + 1
    }
}

fn total_memory(page_size: usize, regions: &Vec<MemoryRegion>) -> (r: usize)
    requires
        bootstrap_ready(regions@, page_size as int),
    ensures
        r == max_region_end(regions@),
{
    let mut total: usize = 0;
    let mut i: usize = 0;
    while i < regions.len()
        invariant
            bootstrap_ready(regions@, page_size as int),
            i <= regions.len(),
            total == max_region_end(regions@.take(i as int)),
        decreases regions.len() - i,
    {
        assert(region_fits(regions@[i as int], page_size as int));
        let end = regions[i].start_address + regions[i].len_bytes as usize;
        assert(regions@.take(i + 1).drop_last() =~= regions@.take(i as int));
        if end > total {
            total = end;
        }
        i += 1;
    }
    assert(regions@.take(regions.len() as int) =~= regions@);
    total
}

/// Where the bitmap goes and how long it is: the page-aligned start of the
/// first free region that can hold it, and its length in 64-bit words.
pub fn bitmap_location(page_size: usize, regions: &Vec<MemoryRegion>) -> (r: (usize, usize))
    requires
        bootstrap_ready(regions@, page_size as int),
    ensures
        r.1 == bitmap_words(regions@, page_size as int),
        exists|k: int|
            #[trigger] is_bitmap_region(regions@, page_size as int, k) && r.0 == aligned_start(
                regions@[k],
                page_size as int,
            ),
{
    // Compute total memory size
    let total_memory = total_memory(page_size, regions);

    // Find a region where we can place the bitmap
    let bitmap_bits = ceil_div_exec(total_memory, page_size);
    let num_words = ceil_div_exec(bitmap_bits, 64);
    let ghost words = num_words as int;
    let mut i: usize = 0;
    while i < regions.len()
        invariant
            bootstrap_ready(regions@, page_size as int),
            words == bitmap_words(regions@, page_size as int),
            num_words == words,
            i <= regions.len(),
            forall|j: int| 0 <= j < i ==> !#[trigger] can_hold_bitmap(regions@[j], page_size as int, 8 * words),
            num_words * 64 <= usize::MAX,
        decreases regions.len() - i,
    {
        let region = regions[i];
        assert(region_fits(regions@[i as int], page_size as int));
        if region.free {
            if let Some((start, end)) = region.page_aligned_start_end_address(page_size) {
                let fits = num_words * 8 <= end - start;
                if fits {
                    assert(is_bitmap_region(regions@, page_size as int, i as int));
                    return (start, num_words);
                }
            }
        }
        i += 1;
    }
    assert(false);
    (0, 0)
}

/// Marks every whole page of the region used, or free. The pages must all be
/// free, or all in use, beforehand.
fn mark_region(used: bool, region: &MemoryRegion, page_size: usize, alloc: &mut BitmapAllocator<u64>)
    requires
        old(alloc).wf(),
        page_size > 0,
        region_fits(*region, page_size as int),
        aligned_range(*region, page_size as int) is Some ==> aligned_end(*region, page_size as int)
            / (page_size as int) <= old(alloc)@.len(),
        forall|p: int| #[trigger]
            in_aligned_pages(*region, page_size as int, p) ==> old(alloc)@[p] == !used,
    ensures
        final(alloc).wf(),
        final(alloc)@ == Seq::new(
            old(alloc)@.len(),
            |p: int|
                if in_aligned_pages(*region, page_size as int, p) {
                    used
                } else {
                    old(alloc)@[p]
                },
        ),
{
    let ghost ps = page_size as int;
    let Some((start_addr, end_addr)) = region.page_aligned_start_end_address(page_size) else {
        assert(old(alloc)@ =~= Seq::new(
            old(alloc)@.len(),
            |p: int| if in_aligned_pages(*region, ps, p) { used } else { old(alloc)@[p] },
        ));
        return;
    };
    let start = start_addr / page_size;
    let end = end_addr / page_size;
    proof {
        vstd::arithmetic::div_mod::lemma_div_is_ordered(start_addr as int, end_addr as int, ps);
    }
    let mut page = start;
    while page < end
        invariant
            alloc.wf(),
            page_size > 0,
            ps == page_size,
            aligned_range(*region, ps) == Some((start_addr as int, end_addr as int)),
            start == start_addr / page_size,
            end == end_addr / page_size,
            end <= old(alloc)@.len(),
            start <= page <= end,
            alloc@.len() == old(alloc)@.len(),
            forall|p: int| #[trigger] in_aligned_pages(*region, ps, p) ==> old(alloc)@[p] == !used,
            alloc@ == Seq::new(
                old(alloc)@.len(),
                |p: int| if start <= p < page { used } else { old(alloc)@[p] },
            ),
        decreases end - page,
    {
        assert(in_aligned_pages(*region, ps, page as int));
        if used {
            alloc.mark_used(page);
        } else {
            alloc.mark_unused(page);
        }
        page += 1;
        assert(alloc@ =~= Seq::new(
            old(alloc)@.len(),
            |p: int| if start <= p < page { used } else { old(alloc)@[p] },
        ));
    }
    assert(alloc@ =~= Seq::new(
        old(alloc)@.len(),
        |p: int| if in_aligned_pages(*region, ps, p) { used } else { old(alloc)@[p] },
    ));
}

/// The pages the allocator holds free after the free regions before `i` have
/// been released from an all-used bitmap.
pub open spec fn released_pages(regions: Seq<MemoryRegion>, page_size: int, i: int, len: nat) -> Seq<bool> {
    Seq::new(
        len,
        |p: int|
            !exists|k: int|
                0 <= k < i && regions[k].free && #[trigger] in_aligned_pages(regions[k], page_size, p),
    )
}

/// This function bootstraps the allocator. The allocator bitmap needs to be
/// in physical memory. We need to figure out where to put it, we need to make
/// sure it is big enough, and we need to ensure that the pages the bitmap is
/// located in are marked as used in the bitmap.
///
/// `allocate_bitmap` is handed the bitmap's start address and its length in
/// 64-bit words, and gives back the storage for it.
pub fn bootstrap_allocator<A>(page_size: usize, regions: &Vec<MemoryRegion>, allocate_bitmap: A) -> (r:
    BitmapAllocator<u64>) where A: Fn(usize, usize) -> Vec<u64>
    requires
        bootstrap_ready(regions@, page_size as int),
        forall|start: usize, len: usize| #[trigger] allocate_bitmap.requires((start, len)),
        forall|start: usize, len: usize, bitmap: Vec<u64>|
            #[trigger] allocate_bitmap.ensures((start, len), bitmap) ==> bitmap.len() == len,
    ensures
        r.wf(),
        exists|k: int|
            #[trigger] is_bitmap_region(regions@, page_size as int, k) && r@ == bootstrapped_pages(
                regions@,
                page_size as int,
                aligned_start(regions@[k], page_size as int),
            ) && bitmap_requested(
                allocate_bitmap,
                aligned_start(regions@[k], page_size as int),
                bitmap_words(regions@, page_size as int),
            ),
{
    let ghost ps = page_size as int;
    let ghost rs = regions@;
    let (bitmap_start, bitmap_len) = bitmap_location(page_size, regions);
    let ghost k = choose|k: int|
        #[trigger] is_bitmap_region(rs, ps, k) && bitmap_start == aligned_start(rs[k], ps);
    let ghost words = bitmap_len as int;
    let ghost n_pages = (words * 64) as nat;
    proof {
        lemma_max_region_end_nonneg(rs);
        lemma_ceil_div(max_region_end(rs), ps);
        lemma_ceil_div(ceil_div(max_region_end(rs), ps), 64);
        vstd::arithmetic::div_mod::lemma_div_is_ordered(
            max_region_end(rs),
            ceil_div(max_region_end(rs), ps) * ps,
            ps,
        );
        vstd::arithmetic::div_mod::lemma_div_multiples_vanish(ceil_div(max_region_end(rs), ps), ps);
    }

    // Allocate the bitmap and set all regions as used. We default to used and
    // then free unused because memory maps often have holes.
    let mut bitmap = allocate_bitmap(bitmap_start, bitmap_len);
    proof {
        assert((bitmap_start as int) as usize == bitmap_start && words as usize == bitmap_len);
        assert(call_ensures(allocate_bitmap, ((bitmap_start as int) as usize, words as usize), bitmap));
        assert(bitmap_requested(allocate_bitmap, bitmap_start as int, words));
    }
    let mut i: usize = 0;
    while i < bitmap.len()
        invariant
            bitmap.len() == bitmap_len,
            bitmap_len * 64 <= usize::MAX,
            i <= bitmap.len(),
            forall|j: int, b: nat| 0 <= j < i && b < 64 ==> #[trigger] bitmap@[j].bit_spec(b),
        decreases bitmap.len() - i,
    {
        bitmap.set(i, u64::all_set());
        i += 1;
    }
    let mut alloc = BitmapAllocator::new(bitmap);
    assert forall|p: int| 0 <= p < n_pages implies #[trigger] alloc@[p] by {
        super::chunk::lemma_page_in_chunks(p, words, 64);
        super::chunk::lemma_page_position(p, 64);
    }
    assert(alloc@ =~= released_pages(rs, ps, 0, n_pages));

    // Mark all unused regions as free in the bitmap
    let mut i: usize = 0;
    while i < regions.len()
        invariant
            alloc.wf(),
            rs == regions@,
            ps == page_size,
            bootstrap_ready(rs, ps),
            words == bitmap_words(rs, ps),
            n_pages == words * 64,
            max_region_end(rs) / ps <= n_pages,
            i <= regions.len(),
            alloc@ == released_pages(rs, ps, i as int, n_pages),
        decreases regions.len() - i,
    {
        let region = &regions[i];
        if region.free {
            proof {
                assert(region_fits(rs[i as int], ps));
                lemma_max_region_end(rs, i as int);
                lemma_round_down(region_end(rs[i as int]), ps);
                if aligned_range(*region, ps) is Some {
                    vstd::arithmetic::div_mod::lemma_div_is_ordered(
                        aligned_end(*region, ps),
                        max_region_end(rs),
                        ps,
                    );
                }
                assert forall|p: int| #[trigger] in_aligned_pages(*region, ps, p) implies alloc@[p]
                    == !false by {
                    lemma_pages_below(*region, ps, max_region_end(rs), p);
                    vstd::arithmetic::div_mod::lemma_div_is_ordered(
                        max_region_end(rs),
                        max_region_end(rs),
                        ps,
                    );
                    if exists|k: int|
                        0 <= k < i && rs[k].free && #[trigger] in_aligned_pages(rs[k], ps, p) {
                        let k = choose|k: int|
                            0 <= k < i && rs[k].free && #[trigger] in_aligned_pages(rs[k], ps, p);
                        assert(in_aligned_pages(rs[i as int], ps, p));
                    }
                }
            }
            mark_region(false, region, page_size, &mut alloc);
            proof {
                assert forall|p: int| 0 <= p < n_pages implies #[trigger] alloc@[p]
                    == released_pages(rs, ps, i + 1, n_pages)[p] by {
                    if in_aligned_pages(rs[i as int], ps, p) {
                        assert(exists|k: int|
                            0 <= k < i + 1 && rs[k].free && #[trigger] in_aligned_pages(
                                rs[k],
                                ps,
                                p,
                            ));
                    }
                }
                assert(alloc@ =~= released_pages(rs, ps, i + 1, n_pages));
            }
        } else {
            proof {
                assert forall|p: int| 0 <= p < n_pages implies #[trigger] alloc@[p]
                    == released_pages(rs, ps, i + 1, n_pages)[p] by {
                    if exists|k: int|
                        0 <= k < i + 1 && rs[k].free && #[trigger] in_aligned_pages(rs[k], ps, p) {
                        let k = choose|k: int|
                            0 <= k < i + 1 && rs[k].free && #[trigger] in_aligned_pages(rs[k], ps, p);
                        assert(k != i);
                    }
                }
                assert(alloc@ =~= released_pages(rs, ps, i + 1, n_pages));
            }
        }
        i += 1;
    }

    // Mark the bitmap storage area as used
    let bitmap_region = MemoryRegion {
        start_address: bitmap_start,
        len_bytes: (bitmap_len * 8) as u64,
        free: false,
    };
    proof {
        let region = rs[k];
        assert(region_fits(region, ps));
        lemma_round_down(region_end(region), ps);
        lemma_round_up(region.start_address as int, ps);
        let (s, e) = (aligned_start(region, ps), aligned_end(region, ps));
        assert(bitmap_region == bitmap_storage_region(s, words));
        assert(region_end(bitmap_region) == s + 8 * words);
        lemma_round_up_least(s + 8 * words, ps, e);
        lemma_round_down(s, ps);
        lemma_round_up(s + 8 * words, ps);
        assert(region_fits(bitmap_region, ps));
        lemma_max_region_end(rs, k);
        vstd::arithmetic::div_mod::lemma_div_is_ordered(
            round_up(s + 8 * words, ps),
            e,
            ps,
        );
        vstd::arithmetic::div_mod::lemma_div_is_ordered(e, max_region_end(rs), ps);
        assert forall|p: int| #[trigger] in_aligned_pages(bitmap_region, ps, p) implies alloc@[p]
            == !true by {
            assert(in_aligned_pages(region, ps, p));
            assert(in_free_region(rs, ps, p));
            assert(alloc@.len() == n_pages);
        }
    }
    mark_region(true, &bitmap_region, page_size, &mut alloc);
    proof {
        assert forall|p: int| 0 <= p < n_pages implies #[trigger] alloc@[p] == bootstrapped_pages(
            rs,
            ps,
            bitmap_start as int,
        )[p] by {
            if in_free_region(rs, ps, p) {
                let j = choose|j: int|
                    0 <= j < rs.len() && rs[j].free && #[trigger] in_aligned_pages(rs[j], ps, p);
                assert(exists|k: int|
                    0 <= k < regions.len() && rs[k].free && #[trigger] in_aligned_pages(rs[k], ps, p));
            }
        }
        assert(alloc@ =~= bootstrapped_pages(rs, ps, bitmap_start as int));
    }
    alloc
}

} // verus!
