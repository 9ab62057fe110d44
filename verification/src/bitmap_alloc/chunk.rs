//! Integer words used as chunks of a bitmap, one bit per page.

use vstd::prelude::*;

verus! {

/// An integer word whose bits are the entries of a bitmap. Bit `i` is the
/// bit of value `1 << i`.
pub trait BitChunk: Sized + Copy {
    /// Number of bits in a chunk.
    spec fn bits_spec() -> nat;

    /// Whether bit `i` of the chunk is set.
    spec fn bit_spec(self, i: nat) -> bool;

    fn bits() -> (r: usize)
        ensures
            r == Self::bits_spec(),
            0 < r <= 64,
    ;

    fn test_bit(self, i: usize) -> (r: bool)
        requires
            i < Self::bits_spec(),
        ensures
            r == self.bit_spec(i as nat),
    ;

    fn with_bit_set(self, i: usize) -> (r: Self)
        requires
            i < Self::bits_spec(),
        ensures
            forall|j: nat| j < Self::bits_spec() ==> #[trigger] r.bit_spec(j) == (j == i || self.bit_spec(j)),
    ;

    fn with_bit_cleared(self, i: usize) -> (r: Self)
        requires
            i < Self::bits_spec(),
        ensures
            forall|j: nat| j < Self::bits_spec() ==> #[trigger] r.bit_spec(j) == (j != i && self.bit_spec(j)),
    ;

    /// The chunk with every bit set.
    fn all_set() -> (r: Self)
        ensures
            forall|j: nat| j < Self::bits_spec() ==> #[trigger] r.bit_spec(j),
    ;

    /// Two chunks with the same bits are the same chunk.
    proof fn lemma_bits_determine(a: Self, b: Self)
        requires
            forall|j: nat| j < Self::bits_spec() ==> #[trigger] a.bit_spec(j) == b.bit_spec(j),
        ensures
            a == b,
    ;
}

pub open spec fn u8_bit(x: u8, i: nat) -> bool {
    i < 8 && (x >> (i as u8)) & 1u8 == 1u8
}

pub open spec fn u64_bit(x: u64, i: nat) -> bool {
    i < 64 && (x >> (i as u64)) & 1u64 == 1u64
}

impl BitChunk for u8 {
    open spec fn bits_spec() -> nat {
        8
    }

    open spec fn bit_spec(self, i: nat) -> bool {
        u8_bit(self, i)
    }

    fn bits() -> (r: usize) {
        8
    }

    fn test_bit(self, i: usize) -> (r: bool) {
        let b = i as u8;
        let r = self & (1u8 << b) != 0;
        assert(r == ((self >> b) & 1u8 == 1u8)) by (bit_vector)
            requires
                b < 8,
                r == (self & (1u8 << b) != 0),
        ;
        r
    }

    fn with_bit_set(self, i: usize) -> (r: u8) {
        let b = i as u8;
        let r = self | (1u8 << b);
        assert forall|j: nat| j < 8 implies #[trigger] u8_bit(r, j) == (j == i || u8_bit(self, j)) by {
            let jj = j as u8;
            assert(((r >> jj) & 1u8 == 1u8) == (jj == b || (self >> jj) & 1u8 == 1u8)) by (bit_vector)
                requires
                    b < 8,
                    jj < 8,
                    r == self | (1u8 << b),
            ;
        }
        r
    }

    fn with_bit_cleared(self, i: usize) -> (r: u8) {
        let b = i as u8;
        let r = self & !(1u8 << b);
        assert forall|j: nat| j < 8 implies #[trigger] u8_bit(r, j) == (j != i && u8_bit(self, j)) by {
            let jj = j as u8;
            assert(((r >> jj) & 1u8 == 1u8) == (jj != b && (self >> jj) & 1u8 == 1u8)) by (bit_vector)
                requires
                    b < 8,
                    jj < 8,
                    r == self & !(1u8 << b),
            ;
        }
        r
    }

    fn all_set() -> (r: u8) {
        let r = 0xFFu8;
        assert forall|j: nat| j < 8 implies #[trigger] u8_bit(r, j) by {
            let jj = j as u8;
            assert((0xFFu8 >> jj) & 1u8 == 1u8) by (bit_vector)
                requires
                    jj < 8,
            ;
        }
        r
    }

    proof fn lemma_bits_determine(a: u8, b: u8) {
        assert(a.bit_spec(0) == b.bit_spec(0));
        assert(a.bit_spec(1) == b.bit_spec(1));
        assert(a.bit_spec(2) == b.bit_spec(2));
        assert(a.bit_spec(3) == b.bit_spec(3));
        assert(a.bit_spec(4) == b.bit_spec(4));
        assert(a.bit_spec(5) == b.bit_spec(5));
        assert(a.bit_spec(6) == b.bit_spec(6));
        assert(a.bit_spec(7) == b.bit_spec(7));
        assert(a == b) by (bit_vector)
            requires
                ((a >> 0u8) & 1u8 == 1u8) == ((b >> 0u8) & 1u8 == 1u8),
                ((a >> 1u8) & 1u8 == 1u8) == ((b >> 1u8) & 1u8 == 1u8),
                ((a >> 2u8) & 1u8 == 1u8) == ((b >> 2u8) & 1u8 == 1u8),
                ((a >> 3u8) & 1u8 == 1u8) == ((b >> 3u8) & 1u8 == 1u8),
                ((a >> 4u8) & 1u8 == 1u8) == ((b >> 4u8) & 1u8 == 1u8),
                ((a >> 5u8) & 1u8 == 1u8) == ((b >> 5u8) & 1u8 == 1u8),
                ((a >> 6u8) & 1u8 == 1u8) == ((b >> 6u8) & 1u8 == 1u8),
                ((a >> 7u8) & 1u8 == 1u8) == ((b >> 7u8) & 1u8 == 1u8),
        ;
    }
}

impl BitChunk for u64 {
    open spec fn bits_spec() -> nat {
        64
    }

    open spec fn bit_spec(self, i: nat) -> bool {
        u64_bit(self, i)
    }

    fn bits() -> (r: usize) {
        64
    }

    fn test_bit(self, i: usize) -> (r: bool) {
        let b = i as u64;
        let r = self & (1u64 << b) != 0;
        assert(r == ((self >> b) & 1u64 == 1u64)) by (bit_vector)
            requires
                b < 64,
                r == (self & (1u64 << b) != 0),
        ;
        r
    }

    fn with_bit_set(self, i: usize) -> (r: u64) {
        let b = i as u64;
        let r = self | (1u64 << b);
        assert forall|j: nat| j < 64 implies #[trigger] u64_bit(r, j) == (j == i || u64_bit(self, j)) by {
            let jj = j as u64;
            assert(((r >> jj) & 1u64 == 1u64) == (jj == b || (self >> jj) & 1u64 == 1u64)) by (bit_vector)
                requires
                    b < 64,
                    jj < 64,
                    r == self | (1u64 << b),
            ;
        }
        r
    }

    fn with_bit_cleared(self, i: usize) -> (r: u64) {
        let b = i as u64;
        let r = self & !(1u64 << b);
        assert forall|j: nat| j < 64 implies #[trigger] u64_bit(r, j) == (j != i && u64_bit(self, j)) by {
            let jj = j as u64;
            assert(((r >> jj) & 1u64 == 1u64) == (jj != b && (self >> jj) & 1u64 == 1u64)) by (bit_vector)
                requires
                    b < 64,
                    jj < 64,
                    r == self & !(1u64 << b),
            ;
        }
        r
    }

    fn all_set() -> (r: u64) {
        let r = u64::MAX;
        assert forall|j: nat| j < 64 implies #[trigger] u64_bit(r, j) by {
            let jj = j as u64;
            assert((0xFFFF_FFFF_FFFF_FFFFu64 >> jj) & 1u64 == 1u64) by (bit_vector)
                requires
                    jj < 64,
            ;
        }
        r
    }

    proof fn lemma_bits_determine(a: u64, b: u64) {
        assert(a.bit_spec(0) == b.bit_spec(0));
        assert(a.bit_spec(1) == b.bit_spec(1));
        assert(a.bit_spec(2) == b.bit_spec(2));
        assert(a.bit_spec(3) == b.bit_spec(3));
        assert(a.bit_spec(4) == b.bit_spec(4));
        assert(a.bit_spec(5) == b.bit_spec(5));
        assert(a.bit_spec(6) == b.bit_spec(6));
        assert(a.bit_spec(7) == b.bit_spec(7));
        assert(a.bit_spec(8) == b.bit_spec(8));
        assert(a.bit_spec(9) == b.bit_spec(9));
        assert(a.bit_spec(10) == b.bit_spec(10));
        assert(a.bit_spec(11) == b.bit_spec(11));
        assert(a.bit_spec(12) == b.bit_spec(12));
        assert(a.bit_spec(13) == b.bit_spec(13));
        assert(a.bit_spec(14) == b.bit_spec(14));
        assert(a.bit_spec(15) == b.bit_spec(15));
        assert(a.bit_spec(16) == b.bit_spec(16));
        assert(a.bit_spec(17) == b.bit_spec(17));
        assert(a.bit_spec(18) == b.bit_spec(18));
        assert(a.bit_spec(19) == b.bit_spec(19));
        assert(a.bit_spec(20) == b.bit_spec(20));
        assert(a.bit_spec(21) == b.bit_spec(21));
        assert(a.bit_spec(22) == b.bit_spec(22));
        assert(a.bit_spec(23) == b.bit_spec(23));
        assert(a.bit_spec(24) == b.bit_spec(24));
        assert(a.bit_spec(25) == b.bit_spec(25));
        assert(a.bit_spec(26) == b.bit_spec(26));
        assert(a.bit_spec(27) == b.bit_spec(27));
        assert(a.bit_spec(28) == b.bit_spec(28));
        assert(a.bit_spec(29) == b.bit_spec(29));
        assert(a.bit_spec(30) == b.bit_spec(30));
        assert(a.bit_spec(31) == b.bit_spec(31));
        assert(a.bit_spec(32) == b.bit_spec(32));
        assert(a.bit_spec(33) == b.bit_spec(33));
        assert(a.bit_spec(34) == b.bit_spec(34));
        assert(a.bit_spec(35) == b.bit_spec(35));
        assert(a.bit_spec(36) == b.bit_spec(36));
        assert(a.bit_spec(37) == b.bit_spec(37));
        assert(a.bit_spec(38) == b.bit_spec(38));
        assert(a.bit_spec(39) == b.bit_spec(39));
        assert(a.bit_spec(40) == b.bit_spec(40));
        assert(a.bit_spec(41) == b.bit_spec(41));
        assert(a.bit_spec(42) == b.bit_spec(42));
        assert(a.bit_spec(43) == b.bit_spec(43));
        assert(a.bit_spec(44) == b.bit_spec(44));
        assert(a.bit_spec(45) == b.bit_spec(45));
        assert(a.bit_spec(46) == b.bit_spec(46));
        assert(a.bit_spec(47) == b.bit_spec(47));
        assert(a.bit_spec(48) == b.bit_spec(48));
        assert(a.bit_spec(49) == b.bit_spec(49));
        assert(a.bit_spec(50) == b.bit_spec(50));
        assert(a.bit_spec(51) == b.bit_spec(51));
        assert(a.bit_spec(52) == b.bit_spec(52));
        assert(a.bit_spec(53) == b.bit_spec(53));
        assert(a.bit_spec(54) == b.bit_spec(54));
        assert(a.bit_spec(55) == b.bit_spec(55));
        assert(a.bit_spec(56) == b.bit_spec(56));
        assert(a.bit_spec(57) == b.bit_spec(57));
        assert(a.bit_spec(58) == b.bit_spec(58));
        assert(a.bit_spec(59) == b.bit_spec(59));
        assert(a.bit_spec(60) == b.bit_spec(60));
        assert(a.bit_spec(61) == b.bit_spec(61));
        assert(a.bit_spec(62) == b.bit_spec(62));
        assert(a.bit_spec(63) == b.bit_spec(63));
        assert(a == b) by (bit_vector)
            requires
                ((a >> 0u64) & 1u64 == 1u64) == ((b >> 0u64) & 1u64 == 1u64),
                ((a >> 1u64) & 1u64 == 1u64) == ((b >> 1u64) & 1u64 == 1u64),
                ((a >> 2u64) & 1u64 == 1u64) == ((b >> 2u64) & 1u64 == 1u64),
                ((a >> 3u64) & 1u64 == 1u64) == ((b >> 3u64) & 1u64 == 1u64),
                ((a >> 4u64) & 1u64 == 1u64) == ((b >> 4u64) & 1u64 == 1u64),
                ((a >> 5u64) & 1u64 == 1u64) == ((b >> 5u64) & 1u64 == 1u64),
                ((a >> 6u64) & 1u64 == 1u64) == ((b >> 6u64) & 1u64 == 1u64),
                ((a >> 7u64) & 1u64 == 1u64) == ((b >> 7u64) & 1u64 == 1u64),
                ((a >> 8u64) & 1u64 == 1u64) == ((b >> 8u64) & 1u64 == 1u64),
                ((a >> 9u64) & 1u64 == 1u64) == ((b >> 9u64) & 1u64 == 1u64),
                ((a >> 10u64) & 1u64 == 1u64) == ((b >> 10u64) & 1u64 == 1u64),
                ((a >> 11u64) & 1u64 == 1u64) == ((b >> 11u64) & 1u64 == 1u64),
                ((a >> 12u64) & 1u64 == 1u64) == ((b >> 12u64) & 1u64 == 1u64),
                ((a >> 13u64) & 1u64 == 1u64) == ((b >> 13u64) & 1u64 == 1u64),
                ((a >> 14u64) & 1u64 == 1u64) == ((b >> 14u64) & 1u64 == 1u64),
                ((a >> 15u64) & 1u64 == 1u64) == ((b >> 15u64) & 1u64 == 1u64),
                ((a >> 16u64) & 1u64 == 1u64) == ((b >> 16u64) & 1u64 == 1u64),
                ((a >> 17u64) & 1u64 == 1u64) == ((b >> 17u64) & 1u64 == 1u64),
                ((a >> 18u64) & 1u64 == 1u64) == ((b >> 18u64) & 1u64 == 1u64),
                ((a >> 19u64) & 1u64 == 1u64) == ((b >> 19u64) & 1u64 == 1u64),
                ((a >> 20u64) & 1u64 == 1u64) == ((b >> 20u64) & 1u64 == 1u64),
                ((a >> 21u64) & 1u64 == 1u64) == ((b >> 21u64) & 1u64 == 1u64),
                ((a >> 22u64) & 1u64 == 1u64) == ((b >> 22u64) & 1u64 == 1u64),
                ((a >> 23u64) & 1u64 == 1u64) == ((b >> 23u64) & 1u64 == 1u64),
                ((a >> 24u64) & 1u64 == 1u64) == ((b >> 24u64) & 1u64 == 1u64),
                ((a >> 25u64) & 1u64 == 1u64) == ((b >> 25u64) & 1u64 == 1u64),
                ((a >> 26u64) & 1u64 == 1u64) == ((b >> 26u64) & 1u64 == 1u64),
                ((a >> 27u64) & 1u64 == 1u64) == ((b >> 27u64) & 1u64 == 1u64),
                ((a >> 28u64) & 1u64 == 1u64) == ((b >> 28u64) & 1u64 == 1u64),
                ((a >> 29u64) & 1u64 == 1u64) == ((b >> 29u64) & 1u64 == 1u64),
                ((a >> 30u64) & 1u64 == 1u64) == ((b >> 30u64) & 1u64 == 1u64),
                ((a >> 31u64) & 1u64 == 1u64) == ((b >> 31u64) & 1u64 == 1u64),
                ((a >> 32u64) & 1u64 == 1u64) == ((b >> 32u64) & 1u64 == 1u64),
                ((a >> 33u64) & 1u64 == 1u64) == ((b >> 33u64) & 1u64 == 1u64),
                ((a >> 34u64) & 1u64 == 1u64) == ((b >> 34u64) & 1u64 == 1u64),
                ((a >> 35u64) & 1u64 == 1u64) == ((b >> 35u64) & 1u64 == 1u64),
                ((a >> 36u64) & 1u64 == 1u64) == ((b >> 36u64) & 1u64 == 1u64),
                ((a >> 37u64) & 1u64 == 1u64) == ((b >> 37u64) & 1u64 == 1u64),
                ((a >> 38u64) & 1u64 == 1u64) == ((b >> 38u64) & 1u64 == 1u64),
                ((a >> 39u64) & 1u64 == 1u64) == ((b >> 39u64) & 1u64 == 1u64),
                ((a >> 40u64) & 1u64 == 1u64) == ((b >> 40u64) & 1u64 == 1u64),
                ((a >> 41u64) & 1u64 == 1u64) == ((b >> 41u64) & 1u64 == 1u64),
                ((a >> 42u64) & 1u64 == 1u64) == ((b >> 42u64) & 1u64 == 1u64),
                ((a >> 43u64) & 1u64 == 1u64) == ((b >> 43u64) & 1u64 == 1u64),
                ((a >> 44u64) & 1u64 == 1u64) == ((b >> 44u64) & 1u64 == 1u64),
                ((a >> 45u64) & 1u64 == 1u64) == ((b >> 45u64) & 1u64 == 1u64),
                ((a >> 46u64) & 1u64 == 1u64) == ((b >> 46u64) & 1u64 == 1u64),
                ((a >> 47u64) & 1u64 == 1u64) == ((b >> 47u64) & 1u64 == 1u64),
                ((a >> 48u64) & 1u64 == 1u64) == ((b >> 48u64) & 1u64 == 1u64),
                ((a >> 49u64) & 1u64 == 1u64) == ((b >> 49u64) & 1u64 == 1u64),
                ((a >> 50u64) & 1u64 == 1u64) == ((b >> 50u64) & 1u64 == 1u64),
                ((a >> 51u64) & 1u64 == 1u64) == ((b >> 51u64) & 1u64 == 1u64),
                ((a >> 52u64) & 1u64 == 1u64) == ((b >> 52u64) & 1u64 == 1u64),
                ((a >> 53u64) & 1u64 == 1u64) == ((b >> 53u64) & 1u64 == 1u64),
                ((a >> 54u64) & 1u64 == 1u64) == ((b >> 54u64) & 1u64 == 1u64),
                ((a >> 55u64) & 1u64 == 1u64) == ((b >> 55u64) & 1u64 == 1u64),
                ((a >> 56u64) & 1u64 == 1u64) == ((b >> 56u64) & 1u64 == 1u64),
                ((a >> 57u64) & 1u64 == 1u64) == ((b >> 57u64) & 1u64 == 1u64),
                ((a >> 58u64) & 1u64 == 1u64) == ((b >> 58u64) & 1u64 == 1u64),
                ((a >> 59u64) & 1u64 == 1u64) == ((b >> 59u64) & 1u64 == 1u64),
                ((a >> 60u64) & 1u64 == 1u64) == ((b >> 60u64) & 1u64 == 1u64),
                ((a >> 61u64) & 1u64 == 1u64) == ((b >> 61u64) & 1u64 == 1u64),
                ((a >> 62u64) & 1u64 == 1u64) == ((b >> 62u64) & 1u64 == 1u64),
                ((a >> 63u64) & 1u64 == 1u64) == ((b >> 63u64) & 1u64 == 1u64),
        ;
    }
}

pub fn byte_is_full(x: u8) -> (r: bool)
    ensures
        r == (forall|j: nat| j < 8 ==> #[trigger] x.bit_spec(j)),
        r == (x == 0xFFu8),
{
        let r = x == 0xFFu8;
        proof {
            assert(x.bit_spec(0) && x.bit_spec(1) && x.bit_spec(2) && x.bit_spec(3) && x.bit_spec(4)
                && x.bit_spec(5) && x.bit_spec(6) && x.bit_spec(7) <==> x == 0xFFu8) by {
                assert(((x >> 0u8) & 1u8 == 1u8 && (x >> 1u8) & 1u8 == 1u8 && (x >> 2u8) & 1u8 == 1u8
                    && (x >> 3u8) & 1u8 == 1u8 && (x >> 4u8) & 1u8 == 1u8 && (x >> 5u8) & 1u8 == 1u8
                    && (x >> 6u8) & 1u8 == 1u8 && (x >> 7u8) & 1u8 == 1u8) <==> x == 0xFFu8)
                    by (bit_vector);
            }
            if r {
                assert forall|j: nat| j < 8 implies #[trigger] x.bit_spec(j) by {
                    if j == 0 {} else if j == 1 {} else if j == 2 {} else if j == 3 {}
                    else if j == 4 {} else if j == 5 {} else if j == 6 {} else {}
                }
            }
        }
        r
    }


} // verus!

verus! {

/// The pages a sequence of chunks describes: page `p` is bit `p % bits` of
/// chunk `p / bits`, and `true` means the page is in use.
pub open spec fn pages_of<C: BitChunk>(chunks: Seq<C>) -> Seq<bool> {
    Seq::new(
        chunks.len() * C::bits_spec(),
        |p: int| chunks[p / (C::bits_spec() as int)].bit_spec((p % (C::bits_spec() as int)) as nat),
    )
}

/// `v` with the pages `start .. start + n` set to `used`.
pub open spec fn set_range(v: Seq<bool>, start: int, n: int, used: bool) -> Seq<bool> {
    Seq::new(v.len(), |p: int| if start <= p < start + n { used } else { v[p] })
}

/// Whether the pages `start .. start + n` all lie in `v` and are all free.
pub open spec fn is_free_run(v: Seq<bool>, start: int, n: int) -> bool {
    &&& 0 <= start
    &&& start + n <= v.len()
    &&& forall|p: int| start <= p < start + n ==> !#[trigger] v[p]
}

/// Whether the pages `start .. start + n` all lie in `v` and are all in use.
pub open spec fn is_used_run(v: Seq<bool>, start: int, n: int) -> bool {
    &&& 0 <= start
    &&& start + n <= v.len()
    &&& forall|p: int| start <= p < start + n ==> #[trigger] v[p]
}

/// Splitting a page number into chunk index and bit index, and back.
pub proof fn lemma_page_position(p: int, bits: int)
    requires
        0 <= p,
        0 < bits,
    ensures
        p == (p / bits) * bits + p % bits,
        0 <= p % bits < bits,
        0 <= p / bits,
        forall|q: int| 0 <= q < bits ==> #[trigger] ((p / bits) * bits + q) / bits == p / bits,
        forall|q: int| 0 <= q < bits ==> #[trigger] ((p / bits) * bits + q) % bits == q,
{
    vstd::arithmetic::div_mod::lemma_fundamental_div_mod(p, bits);
    vstd::arithmetic::mul::lemma_mul_is_commutative(bits, p / bits);
    assert(0 <= p / bits) by (nonlinear_arith)
        requires
            0 <= p,
            0 < bits,
    ;
    assert forall|q: int| 0 <= q < bits implies #[trigger] ((p / bits) * bits + q) / bits == p / bits
        && ((p / bits) * bits + q) % bits == q by {
        vstd::arithmetic::div_mod::lemma_fundamental_div_mod_converse(
            (p / bits) * bits + q,
            bits,
            p / bits,
            q,
        );
    }
}

/// A page below `n * bits` lies in one of the first `n` chunks.
pub proof fn lemma_page_in_chunks(p: int, n: int, bits: int)
    requires
        0 <= p < n * bits,
        0 < bits,
    ensures
        0 <= p / bits < n,
{
    lemma_page_position(p, bits);
    assert(p / bits < n) by (nonlinear_arith)
        requires
            0 <= p < n * bits,
            0 < bits,
            p == (p / bits) * bits + p % bits,
            0 <= p % bits < bits,
    ;
}

/// Replacing one chunk changes exactly the pages of that chunk.
pub proof fn lemma_pages_of_update<C: BitChunk>(chunks: Seq<C>, i: int, c: C)
    requires
        0 <= i < chunks.len(),
        C::bits_spec() > 0,
    ensures
        pages_of(chunks.update(i, c)).len() == pages_of(chunks).len(),
        forall|p: int|
            0 <= p < pages_of(chunks).len() ==> #[trigger] pages_of(chunks.update(i, c))[p] == if p
                / (C::bits_spec() as int) == i {
                c.bit_spec((p % (C::bits_spec() as int)) as nat)
            } else {
                pages_of(chunks)[p]
            },
{
    let b = C::bits_spec() as int;
    assert forall|p: int| 0 <= p < pages_of(chunks).len() implies #[trigger] pages_of(
        chunks.update(i, c),
    )[p] == if p / b == i {
        c.bit_spec((p % b) as nat)
    } else {
        pages_of(chunks)[p]
    } by {
        lemma_page_in_chunks(p, chunks.len() as int, b);
    }
}

/// Two sequences of chunks with the same pages are equal.
pub proof fn lemma_pages_of_injective<C: BitChunk>(a: Seq<C>, b: Seq<C>)
    requires
        a.len() == b.len(),
        pages_of(a) == pages_of(b),
        C::bits_spec() > 0,
    ensures
        a == b,
{
    let bits = C::bits_spec() as int;
    assert forall|i: int| 0 <= i < a.len() implies a[i] == b[i] by {
        assert forall|j: nat| j < C::bits_spec() implies #[trigger] a[i].bit_spec(j) == b[i].bit_spec(
            j,
        ) by {
            let p = i * bits + j;
            assert(0 <= p < a.len() * bits) by (nonlinear_arith)
                requires
                    0 <= i < a.len(),
                    0 <= j < bits,
                    p == i * bits + j,
            ;
            vstd::arithmetic::div_mod::lemma_fundamental_div_mod_converse(p, bits, i, j as int);
            assert(p / bits == i);
            assert(p % bits == j);
            assert(pages_of(a)[p] == a[i].bit_spec(j));
            assert(pages_of(b)[p] == b[i].bit_spec(j));
            assert(pages_of(a)[p] == pages_of(b)[p]);
        }
        C::lemma_bits_determine(a[i], b[i]);
    }
    assert(a =~= b);
}

} // verus!
