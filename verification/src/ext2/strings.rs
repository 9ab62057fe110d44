//! Text stored in ext2 structures: UTF-8 names and nul-terminated strings.

use vstd::prelude::*;
use vstd::string::StringExecFns;
use vstd::utf8::{decode_utf8, valid_utf8};

verus! {

/// `std::string::String::from_utf8`: the text the bytes encode, or `None`
/// if they are not valid UTF-8, as the standard library documents.
#[verifier::external_body]
fn utf8_to_string(bytes: Vec<u8>) -> (r: Option<String>)
    ensures
        r is Some <==> valid_utf8(bytes@),
        r matches Some(s) ==> s@ == decode_utf8(bytes@),
{
    String::from_utf8(bytes).ok()
}

/// The text the bytes encode, or `fallback` if they are not valid UTF-8.
pub open spec fn utf8_or(bytes: Seq<u8>, fallback: Seq<char>) -> Seq<char> {
    if valid_utf8(bytes) {
        decode_utf8(bytes)
    } else {
        fallback
    }
}

/// Decodes the bytes as UTF-8, or gives `fallback` if they are not valid
/// UTF-8.
pub fn string_from_utf8_or(bytes: &[u8], fallback: &str) -> (r: String)
    ensures
        r@ == utf8_or(bytes@, fallback@),
{
    let mut v: Vec<u8> = Vec::new();
    let mut i: usize = 0;
    while i < bytes.len()
        invariant
            i <= bytes@.len(),
            v@ == bytes@.subrange(0, i as int),
        decreases bytes@.len() - i,
    {
        v.push(bytes[i]);
        i += 1;
    }
    assert(v@ =~= bytes@);
    match utf8_to_string(v) {
        Some(s) => s,
        None => String::from_str(fallback),
    }
}

/// Length of the nul-terminated string at the start of `bytes`: the index of
/// the first zero byte, or the whole length if there is none.
pub open spec fn c_str_len(bytes: Seq<u8>, n: int) -> bool {
    &&& 0 <= n <= bytes.len()
    &&& n < bytes.len() ==> bytes[n] == 0
    &&& forall|i: int| 0 <= i < n ==> #[trigger] bytes[i] != 0
}

/// Creates a string from the nul-terminated bytes at the start of a byte
/// slice.
pub fn c_str_from_bytes(bytes: &[u8]) -> (r: String)
    ensures
        exists|n: int|
            c_str_len(bytes@, n) && r@ == utf8_or(bytes@.subrange(0, n), "<invalid UTF-8>"@),
{
    let mut nul_location: usize = 0;
    while nul_location < bytes.len() && bytes[nul_location] != 0
        invariant
            nul_location <= bytes@.len(),
            forall|i: int| 0 <= i < nul_location ==> #[trigger] bytes@[i] != 0,
        decreases bytes@.len() - nul_location,
    {
        nul_location += 1;
    }
    let mut prefix: Vec<u8> = Vec::new();
    let mut i: usize = 0;
    while i < nul_location
        invariant
            nul_location <= bytes@.len(),
            i <= nul_location,
            prefix@ == bytes@.subrange(0, i as int),
        decreases nul_location - i,
    {
        prefix.push(bytes[i]);
        i += 1;
    }
    let r = string_from_utf8_or(prefix.as_slice(), "<invalid UTF-8>");
    assert(c_str_len(bytes@, nul_location as int));
    r
}

} // verus!
