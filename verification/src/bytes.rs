//! Little-endian integers and fixed-size byte arrays read out of on-disk and
//! in-memory structures.

use vstd::prelude::*;

verus! {

/// The little-endian `u16` at byte `off` of `s`.
pub open spec fn le_u16(s: Seq<u8>, off: int) -> u16 {
    (s[off] as int + s[off + 1] as int * 0x100) as u16
}

/// The little-endian `u32` at byte `off` of `s`.
pub open spec fn le_u32(s: Seq<u8>, off: int) -> u32 {
    (s[off] as int + s[off + 1] as int * 0x100 + s[off + 2] as int * 0x1_0000 + s[off + 3] as int
        * 0x100_0000) as u32
}

/// The little-endian `u64` at byte `off` of `s`.
pub open spec fn le_u64(s: Seq<u8>, off: int) -> u64 {
    (le_u32(s, off) as int + le_u32(s, off + 4) as int * 0x1_0000_0000) as u64
}

pub fn read_u16_le(bytes: &[u8], off: usize) -> (r: u16)
    requires
        off + 2 <= bytes.len(),
    ensures
        r == le_u16(bytes@, off as int),
{
    bytes[off] as u16 + bytes[off + 1] as u16 * 0x100
}

pub fn read_u32_le(bytes: &[u8], off: usize) -> (r: u32)
    requires
        off + 4 <= bytes.len(),
    ensures
        r == le_u32(bytes@, off as int),
{
    bytes[off] as u32 + bytes[off + 1] as u32 * 0x100 + bytes[off + 2] as u32 * 0x1_0000
        + bytes[off + 3] as u32 * 0x100_0000
}

pub fn read_u64_le(bytes: &[u8], off: usize) -> (r: u64)
    requires
        off + 8 <= bytes.len(),
    ensures
        r == le_u64(bytes@, off as int),
{
    let low = read_u32_le(bytes, off);
    let high = read_u32_le(bytes, off + 4);
    low as u64 + high as u64 * 0x1_0000_0000
}

pub fn read_array_3(bytes: &[u8], off: usize) -> (r: [u8; 3])
    requires
        off + 3 <= bytes.len(),
    ensures
        r@ == bytes@.subrange(off as int, off + 3),
{
    let r = [bytes[off], bytes[off + 1], bytes[off + 2]];
    assert(r@ =~= bytes@.subrange(off as int, off + 3));
    r
}

pub fn read_array_8(bytes: &[u8], off: usize) -> (r: [u8; 8])
    requires
        off + 8 <= bytes.len(),
    ensures
        r@ == bytes@.subrange(off as int, off + 8),
{
    let mut r = [0u8; 8];
    let mut i: usize = 0;
    while i < 8
        invariant
            off + 8 <= bytes.len(),
            i <= 8,
            r@.len() == 8,
            forall|j: int| 0 <= j < i ==> r@[j] == bytes@[off + j],
        decreases 8 - i,
    {
        r[i] = bytes[off + i];
        i += 1;
    }
    assert(r@ =~= bytes@.subrange(off as int, off + 8));
    r
}

pub fn read_array_12(bytes: &[u8], off: usize) -> (r: [u8; 12])
    requires
        off + 12 <= bytes.len(),
    ensures
        r@ == bytes@.subrange(off as int, off + 12),
{
    let mut r = [0u8; 12];
    let mut i: usize = 0;
    while i < 12
        invariant
            off + 12 <= bytes.len(),
            i <= 12,
            r@.len() == 12,
            forall|j: int| 0 <= j < i ==> r@[j] == bytes@[off + j],
        decreases 12 - i,
    {
        r[i] = bytes[off + i];
        i += 1;
    }
    assert(r@ =~= bytes@.subrange(off as int, off + 12));
    r
}

pub fn read_array_16(bytes: &[u8], off: usize) -> (r: [u8; 16])
    requires
        off + 16 <= bytes.len(),
    ensures
        r@ == bytes@.subrange(off as int, off + 16),
{
    let mut r = [0u8; 16];
    let mut i: usize = 0;
    while i < 16
        invariant
            off + 16 <= bytes.len(),
            i <= 16,
            r@.len() == 16,
            forall|j: int| 0 <= j < i ==> r@[j] == bytes@[off + j],
        decreases 16 - i,
    {
        r[i] = bytes[off + i];
        i += 1;
    }
    assert(r@ =~= bytes@.subrange(off as int, off + 16));
    r
}

pub fn read_array_64(bytes: &[u8], off: usize) -> (r: [u8; 64])
    requires
        off + 64 <= bytes.len(),
    ensures
        r@ == bytes@.subrange(off as int, off + 64),
{
    let mut r = [0u8; 64];
    let mut i: usize = 0;
    while i < 64
        invariant
            off + 64 <= bytes.len(),
            i <= 64,
            r@.len() == 64,
            forall|j: int| 0 <= j < i ==> r@[j] == bytes@[off + j],
        decreases 64 - i,
    {
        r[i] = bytes[off + i];
        i += 1;
    }
    assert(r@ =~= bytes@.subrange(off as int, off + 64));
    r
}

/// `s` with the little-endian bytes of `v` written at `off`.
pub open spec fn put_u16(s: Seq<u8>, off: int, v: u16) -> Seq<u8> {
    s.update(off, (v % 0x100) as u8).update(off + 1, (v / 0x100) as u8)
}

/// `s` with the little-endian bytes of `v` written at `off`.
pub open spec fn put_u32(s: Seq<u8>, off: int, v: u32) -> Seq<u8> {
    put_u16(put_u16(s, off, (v % 0x1_0000) as u16), off + 2, (v / 0x1_0000) as u16)
}

/// Reading back a `u16` that was written gives it back, and leaves the other
/// bytes as they were.
pub proof fn lemma_put_u16(s: Seq<u8>, off: int, v: u16)
    requires
        0 <= off,
        off + 2 <= s.len(),
    ensures
        le_u16(put_u16(s, off, v), off) == v,
        put_u16(s, off, v).len() == s.len(),
        forall|i: int| 0 <= i < s.len() && (i < off || i >= off + 2) ==> put_u16(s, off, v)[i] == s[i],
{
}

/// Reading back a `u32` that was written gives it back, and leaves the other
/// bytes as they were.
pub proof fn lemma_put_u32(s: Seq<u8>, off: int, v: u32)
    requires
        0 <= off,
        off + 4 <= s.len(),
    ensures
        le_u32(put_u32(s, off, v), off) == v,
        put_u32(s, off, v).len() == s.len(),
        forall|i: int| 0 <= i < s.len() && (i < off || i >= off + 4) ==> put_u32(s, off, v)[i] == s[i],
{
    let lo = (v % 0x1_0000) as u16;
    let hi = (v / 0x1_0000) as u16;
    lemma_put_u16(s, off, lo);
    lemma_put_u16(put_u16(s, off, lo), off + 2, hi);
}

/// Writes `v` in little-endian order at byte `off`.
pub fn write_u16_le(bytes: &mut Vec<u8>, off: usize, v: u16)
    requires
        off + 2 <= old(bytes).len(),
    ensures
        final(bytes)@ == put_u16(old(bytes)@, off as int, v),
{
    bytes.set(off, (v % 0x100) as u8);
    bytes.set(off + 1, (v / 0x100) as u8);
}

/// Writes `v` in little-endian order at byte `off`.
pub fn write_u32_le(bytes: &mut Vec<u8>, off: usize, v: u32)
    requires
        off + 4 <= old(bytes).len(),
    ensures
        final(bytes)@ == put_u32(old(bytes)@, off as int, v),
{
    write_u16_le(bytes, off, (v % 0x1_0000) as u16);
    write_u16_le(bytes, off + 2, (v / 0x1_0000) as u16);
}

/// `s` with `t` written over it from `at` on.
pub open spec fn splice_bytes(s: Seq<u8>, at: int, t: Seq<u8>) -> Seq<u8> {
    s.subrange(0, at) + t + s.subrange(at + t.len(), s.len() as int)
}

} // verus!
