//! Summaries of the memory map that the boot loader hands over: how many
//! bytes each type of region covers, and where the highest region ends.

use vstd::prelude::*;

verus! {

/// The total length of the regions of type `t` among `entries`, each entry
/// being a region's base address, length and type.
pub open spec fn type_total(entries: Seq<(u64, u64, u8)>, t: int) -> int
    decreases entries.len(),
{
    if entries.len() == 0 {
        0
    } else {
        type_total(entries.drop_last(), t) + if entries.last().2 == t {
            entries.last().1 as int
        } else {
            0
        }
    }
}

/// The highest end address (base plus length) of the regions among
/// `entries`, or zero if there are none.
pub open spec fn highest_end(entries: Seq<(u64, u64, u8)>) -> int
    decreases entries.len(),
{
    if entries.len() == 0 {
        0
    } else {
        let end = entries.last().0 + entries.last().1;
        let before = highest_end(entries.drop_last());
        if before >= end {
            before
        } else {
            end
        }
    }
}

/// A total over the first regions is no more than the total over all of
/// them.
proof fn lemma_type_total_prefix(entries: Seq<(u64, u64, u8)>, n: int, t: int)
    requires
        0 <= n <= entries.len(),
    ensures
        0 <= type_total(entries.take(n), t) <= type_total(entries, t),
    decreases entries.len(),
{
    if n < entries.len() {
        lemma_type_total_prefix(entries.drop_last(), n, t);
        assert(entries.drop_last().take(n) =~= entries.take(n));
    } else {
        assert(entries.take(n) =~= entries);
    }
    lemma_type_total_nonneg(entries.take(n), t);
}

proof fn lemma_type_total_nonneg(entries: Seq<(u64, u64, u8)>, t: int)
    ensures
        type_total(entries, t) >= 0,
    decreases entries.len(),
{
    if entries.len() > 0 {
        lemma_type_total_nonneg(entries.drop_last(), t);
    }
}

/// The total length of the regions of each type (by type number), and the
/// highest end address of any region.
pub fn memory_map_totals(entries: &Vec<(u64, u64, u8)>) -> (r: ([u64; 16], u64))
    requires
        forall|i: int| 0 <= i < entries@.len() ==> (#[trigger] entries@[i]).2 < 16,
        forall|i: int| 0 <= i < entries@.len() ==> (#[trigger] entries@[i]).0 + entries@[i].1 <= u64::MAX,
        forall|t: int| 0 <= t < 16 ==> #[trigger] type_total(entries@, t) <= u64::MAX,
    ensures
        forall|t: int| 0 <= t < 16 ==> #[trigger] r.0@[t] == type_total(entries@, t),
        r.1 == highest_end(entries@),
{
    let mut totals = [0u64; 16];
    let mut max_memory: u64 = 0;
    let mut i: usize = 0;
    while i < entries.len()
        invariant
            i <= entries@.len(),
            totals@.len() == 16,
            forall|j: int| 0 <= j < entries@.len() ==> (#[trigger] entries@[j]).2 < 16,
            forall|j: int| 0 <= j < entries@.len() ==> (#[trigger] entries@[j]).0 + entries@[j].1 <= u64::MAX,
            forall|t: int| 0 <= t < 16 ==> #[trigger] type_total(entries@, t) <= u64::MAX,
            forall|t: int| 0 <= t < 16 ==> #[trigger] totals@[t] == type_total(entries@.take(i as int), t),
            max_memory == highest_end(entries@.take(i as int)),
        decreases entries@.len() - i,
    {
        let (base, len, typ) = entries[i];
        let ghost prefix = entries@.take(i as int);
        let ghost next = entries@.take(i + 1);
        assert(next.drop_last() =~= prefix);
        assert(next.last() == entries@[i as int]);
        proof {
            lemma_type_total_prefix(entries@, i + 1, typ as int);
        }
        let t = typ as usize;
        totals[t] = totals[t] + len;
        let end = base + len;
        if end > max_memory {
            max_memory = end;
        }
        i += 1;
    }
    assert(entries@.take(i as int) =~= entries@);
    (totals, max_memory)
}

} // verus!
