//! Base address registers (BARs): where a device's memory or I/O regions
//! are mapped. See "7.5.1.2.1 Base Address Register" in the PCI Express
//! specification.

use vstd::prelude::*;

verus! {

broadcast use vstd::array::group_array_axioms;

#[derive(Debug, Clone, Copy, PartialEq, Eq, Structural)]
pub enum BARAddress {
    /// 32-bit BAR address. Uses a single BAR register.
    Mem32Bit { address: u32, prefetchable: bool },
    /// 64-bit BAR address. Uses two adjacent BAR registers.
    Mem64Bit { address: u64, prefetchable: bool },
    /// I/O BAR address. Uses a single BAR register.
    IO(u32),
}

/// The BAR at `i` describes memory (bit 0 clear) of the 32-bit type (bits 1
/// and 2 are `00`).
pub open spec fn is_mem32(bar: u32) -> bool {
    bar & 1 == 0 && (bar >> 1) & 3 == 0
}

/// The BAR describes memory (bit 0 clear) of the 64-bit type (bits 1 and 2
/// are `10`): the next BAR holds the upper half of the address.
pub open spec fn is_mem64(bar: u32) -> bool {
    bar & 1 == 0 && (bar >> 1) & 3 == 2
}

/// The BAR describes an I/O region (bit 0 set).
pub open spec fn is_io(bar: u32) -> bool {
    bar & 1 == 1
}

/// Whether the memory described by a memory BAR is prefetchable (bit 3).
pub open spec fn is_prefetchable(bar: u32) -> bool {
    (bar >> 3) & 1 == 1
}

/// The 64-bit address made of a BAR and the BAR after it.
pub open spec fn mem64_address(bar: u32, next_bar: u32) -> u64 {
    ((next_bar as u64) << 32u64) | ((bar as u64) & 0xffff_fff0u64)
}

/// Whether the BARs from `i` on can be read: none of them has the reserved
/// memory type `01` or `11`, and each 64-bit BAR has a BAR after it.
pub open spec fn bars_interpretable(bars: Seq<u32>, i: int) -> bool
    decreases bars.len() - i,
{
    if i < 0 || i >= bars.len() {
        true
    } else if bars[i] == 0 || is_io(bars[i]) || is_mem32(bars[i]) {
        bars_interpretable(bars, i + 1)
    } else if is_mem64(bars[i]) {
        i + 1 < bars.len() && bars_interpretable(bars, i + 2)
    } else {
        false
    }
}

/// What the BARs from `i` on describe, one entry for each BAR: nothing for an
/// unimplemented (zero) BAR and for the upper half of a 64-bit address.
pub open spec fn bar_interpretation(bars: Seq<u32>, i: int) -> Seq<Option<BARAddress>>
    decreases bars.len() - i,
{
    if i < 0 || i >= bars.len() {
        Seq::empty()
    } else {
        let bar = bars[i];
        if bar == 0 {
            seq![None] + bar_interpretation(bars, i + 1)
        } else if is_io(bar) {
            seq![Some(BARAddress::IO(bar & 0xffff_fffc))] + bar_interpretation(bars, i + 1)
        } else if is_mem32(bar) {
            seq![
                Some(
                    BARAddress::Mem32Bit {
                        address: bar & 0xffff_fff0,
                        prefetchable: is_prefetchable(bar),
                    },
                ),
            ] + bar_interpretation(bars, i + 1)
        } else if is_mem64(bar) && i + 1 < bars.len() {
            seq![
                Some(
                    BARAddress::Mem64Bit {
                        address: mem64_address(bar, bars[i + 1]),
                        prefetchable: is_prefetchable(bar),
                    },
                ),
                None,
            ] + bar_interpretation(bars, i + 2)
        } else {
            Seq::empty()
        }
    }
}

proof fn lemma_bar_interpretation_len(bars: Seq<u32>, i: int)
    requires
        0 <= i <= bars.len(),
        bars_interpretable(bars, i),
    ensures
        bar_interpretation(bars, i).len() == bars.len() - i,
    decreases bars.len() - i,
{
    if i < bars.len() {
        if is_mem64(bars[i]) && bars[i] != 0 && !is_io(bars[i]) && !is_mem32(bars[i]) {
            lemma_bar_interpretation_len(bars, i + 2);
        } else {
            lemma_bar_interpretation_len(bars, i + 1);
        }
    }
}

/// What a BAR's entry among the decoded BARs holds, read straight from the
/// BAR's bits (PCI Express, "Base Address Register"): bit 0 set is an I/O
/// BAR whose address is the BAR with its two low bits cleared; otherwise
/// bits 1 and 2 give the memory type (`00` 32-bit, `10` 64-bit with the
/// upper half in the next BAR), bit 3 whether the memory is prefetchable,
/// and the address is the BAR with its four low bits cleared. An entry with
/// nothing stands for a BAR that is zero or that holds the upper half of the
/// 64-bit address before it.
pub open spec fn decoded_from_bits(bars: Seq<u32>, j: int, e: Option<BARAddress>, prev: Option<BARAddress>) -> bool {
    let b = bars[j];
    match e {
        Some(BARAddress::IO(a)) => b & 1 == 1 && a == b & 0xffff_fffc,
        Some(BARAddress::Mem32Bit { address, prefetchable }) => {
            &&& b & 1 == 0
            &&& (b >> 1) & 3 == 0
            &&& address == b & 0xffff_fff0
            &&& prefetchable == ((b >> 3) & 1 == 1)
        },
        Some(BARAddress::Mem64Bit { address, prefetchable }) => {
            &&& b & 1 == 0
            &&& (b >> 1) & 3 == 2
            &&& j + 1 < bars.len()
            &&& address == ((bars[j + 1] as u64) << 32u64) | ((b as u64) & 0xffff_fff0u64)
            &&& prefetchable == ((b >> 3) & 1 == 1)
        },
        None => b == 0 || prev matches Some(BARAddress::Mem64Bit { .. }),
    }
}

/// Each decoded BAR is what its BAR's bits say: its kind, address and
/// prefetchable flag come from that BAR (and, for a 64-bit BAR, the one
/// after it), one entry for each BAR, in order.
pub proof fn lemma_bar_interpretation_bits(bars: Seq<u32>, i: int)
    requires
        0 <= i <= bars.len(),
        bars_interpretable(bars, i),
    ensures
        bar_interpretation(bars, i).len() == bars.len() - i,
        forall|k: int|
            0 <= k < bars.len() - i ==> decoded_from_bits(
                bars,
                i + k,
                #[trigger] bar_interpretation(bars, i)[k],
                if k == 0 { None } else { bar_interpretation(bars, i)[k - 1] },
            ),
    decreases bars.len() - i,
{
    lemma_bar_interpretation_len(bars, i);
    if i < bars.len() {
        let bar = bars[i];
        let s = bar_interpretation(bars, i);
        if bar == 0 || is_io(bar) || is_mem32(bar) {
            lemma_bar_interpretation_bits(bars, i + 1);
            let rest = bar_interpretation(bars, i + 1);
            assert forall|k: int| 0 <= k < bars.len() - i implies decoded_from_bits(
                bars,
                i + k,
                #[trigger] s[k],
                if k == 0 { None } else { s[k - 1] },
            ) by {
                if k > 0 {
                    assert(s[k] == rest[k - 1]);
                    if k > 1 {
                        assert(s[k - 1] == rest[k - 2]);
                    }
                    assert(i + 1 + (k - 1) == i + k);
                }
            }
        } else {
            lemma_bar_interpretation_bits(bars, i + 2);
            let rest = bar_interpretation(bars, i + 2);
            assert forall|k: int| 0 <= k < bars.len() - i implies decoded_from_bits(
                bars,
                i + k,
                #[trigger] s[k],
                if k == 0 { None } else { s[k - 1] },
            ) by {
                if k > 1 {
                    assert(s[k] == rest[k - 2]);
                    if k > 2 {
                        assert(s[k - 1] == rest[k - 3]);
                    }
                    assert(i + 2 + (k - 2) == i + k);
                }
            }
        }
    }
}

pub struct BARAddresses<const N: usize> {
    pub bars: [u32; N],
}

impl<const N: usize> BARAddresses<N> {
    /// Interprets the BAR addresses into `BARAddress`es. This is a bit
    /// non-trivial because adjacent BAR addresses can be part of the same 64
    /// bit address, so we can't just look at them 1 by 1.
    pub fn interpreted(&self) -> (r: [Option<BARAddress>; N])
        requires
            bars_interpretable(self.bars@, 0),
        ensures
            r@ == bar_interpretation(self.bars@, 0),
    {
        let bars = &self.bars;
        let mut addresses: [Option<BARAddress>; N] = [None; N];
        proof {
            lemma_bar_interpretation_len(bars@, 0);
        }

        let mut i: usize = 0;
        while i < N
            invariant
                i <= N,
                bars@.len() == N,
                addresses@.len() == N,
                bars_interpretable(bars@, i as int),
                bar_interpretation(bars@, 0) == addresses@.subrange(0, i as int) + bar_interpretation(
                    bars@,
                    i as int,
                ),
                forall|j: int| i <= j < N ==> addresses@[j] is None,
            decreases N - i,
        {
            let bar = bars[i];
            let ghost start = i as int;
            let ghost before = addresses@;
            let ghost whole = bar_interpretation(bars@, 0);
            if bar == 0 {
                // This BAR is not implemented.
                i += 1;
                proof {
                    assert(addresses@.subrange(0, i as int) =~= before.subrange(0, start) + seq![
                        None,
                    ]);
                    assert(whole =~= addresses@.subrange(0, i as int) + bar_interpretation(
                        bars@,
                        i as int,
                    ));
                }
                continue;
            }
            let bit_0 = bar & 0b1;
            let bit_1_2 = (bar >> 1) & 0b11;
            let bit_3 = (bar >> 3) & 0b1;
            if bit_0 == 0 && bit_1_2 == 0 {
                // 32-bit address
                let address = bar & 0xffff_fff0;
                let prefetchable = bit_3 == 0b1;
                let entry = Some(BARAddress::Mem32Bit { address, prefetchable });
                addresses[i] = entry;
                i += 1;
                proof {
                    assert(addresses@.subrange(0, i as int) =~= before.subrange(0, start) + seq![
                        entry,
                    ]);
                    assert(whole =~= addresses@.subrange(0, i as int) + bar_interpretation(
                        bars@,
                        i as int,
                    ));
                }
            } else if bit_0 == 0 && bit_1_2 == 0b10 {
                // 64-bit address. Use the next BAR as well for the upper 32 bits.
                let next_bar = bars[i + 1];
                let address = ((next_bar as u64) << 32u64) | ((bar as u64) & 0xffff_fff0u64);
                let prefetchable = bit_3 == 0b1;
                let entry = Some(BARAddress::Mem64Bit { address, prefetchable });
                addresses[i] = entry;
                // This address is being used by the 64-bit BAR, so we shouldn't
                // try to interpret it on its own.
                addresses[i + 1] = None;
                i += 2;
                proof {
                    assert(addresses@.subrange(0, i as int) =~= before.subrange(0, start) + seq![
                        entry,
                        None,
                    ]);
                    assert(whole =~= addresses@.subrange(0, i as int) + bar_interpretation(
                        bars@,
                        i as int,
                    ));
                }
            } else {
                // I/O address
                let addr = bar & 0xffff_fffc;
                let entry = Some(BARAddress::IO(addr));
                addresses[i] = entry;
                i += 1;
                proof {
                    assert(addresses@.subrange(0, i as int) =~= before.subrange(0, start) + seq![
                        entry,
                    ]);
                    assert(whole =~= addresses@.subrange(0, i as int) + bar_interpretation(
                        bars@,
                        i as int,
                    ));
                }
            }
        }
        assert(addresses@.subrange(0, N as int) =~= addresses@);
        addresses
    }
}

} // verus!
