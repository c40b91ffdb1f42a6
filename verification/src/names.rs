//! Text handling for paths, patterns and entry names: the engine speaks
//! NUL-terminated bytes, the layer speaks UTF-8 strings.

use vstd::prelude::*;
use vstd::string::StringSliceAdditionalSpecFns;
use vstd::utf8::{decode_utf8, valid_utf8};

verus! {

/// Does the byte string contain a NUL? Such a value cannot cross the
/// engine's C-string boundary.
pub open spec fn has_nul(b: Seq<u8>) -> bool {
    exists|i: int| 0 <= i < b.len() && b[i] == 0
}

/// Check a byte string for an interior NUL.
pub fn contains_nul(b: &Vec<u8>) -> (r: bool)
    ensures
        r <==> has_nul(b@),
{
    let mut i: usize = 0;
    while i < b.len()
        invariant
            i <= b@.len(),
            forall|j: int| 0 <= j < i ==> b@[j] != 0,
        decreases b@.len() - i,
    {
        if b[i] == 0 {
            return true;
        }
        i = i + 1;
    }
    false
}

/// The UTF-8 bytes of a string.
pub fn encode(s: &str) -> (r: Vec<u8>)
    ensures
        r@ == s.spec_bytes(),
{
    s.as_bytes_vec()
}

/// Relies on str::from_utf8 and str::to_owned: decoding succeeds exactly
/// on valid UTF-8 input, and then yields the text those bytes spell.
#[verifier::external_body]
pub(crate) fn decode(bytes: &Vec<u8>) -> (r: Option<String>)
    ensures
        r is Some <==> valid_utf8(bytes@),
        r matches Some(s) ==> s@ == decode_utf8(bytes@),
{
    match core::str::from_utf8(bytes.as_slice()) {
        Ok(s) => Some(s.to_owned()),
        Err(_) => None,
    }
}

} // verus!
