//! Decoding UTF-8 text, through `std::str::from_utf8`, and a fact about
//! encoding it.

use vstd::prelude::*;
use vstd::utf8::{valid_utf8, decode_utf8};

verus! {

/// Calls `std::str::from_utf8`.  As its documentation says, it succeeds
/// exactly when `bytes` is valid UTF-8, and then yields the string whose
/// characters those bytes encode.  Nothing is claimed of the error value.
#[verifier::external_body]
pub(crate) fn str_from_utf8(bytes: &[u8]) -> (decoded: Result<&str, core::str::Utf8Error>)
    ensures
        decoded is Ok <==> valid_utf8(bytes@),
        decoded matches Ok(text) ==> text@ == decode_utf8(bytes@),
{
    core::str::from_utf8(bytes)
}

/// The UTF-8 encoding of two texts one after the other is the two encodings
/// one after the other.
pub proof fn lemma_encode_utf8_concat(a: Seq<char>, b: Seq<char>)
    ensures
        vstd::utf8::encode_utf8(a + b) == vstd::utf8::encode_utf8(a) + vstd::utf8::encode_utf8(b),
    decreases a.len(),
{
    if a.len() == 0 {
        assert(a + b =~= b);
        assert(vstd::utf8::encode_utf8(a) =~= seq![]);
        assert(seq![] + vstd::utf8::encode_utf8(b) =~= vstd::utf8::encode_utf8(b));
    } else {
        lemma_encode_utf8_concat(a.drop_first(), b);
        assert((a + b).drop_first() =~= a.drop_first() + b);
        assert((a + b)[0] == a[0]);
        assert(vstd::utf8::encode_utf8(a) =~= vstd::utf8::encode_scalar(a[0] as u32)
            + vstd::utf8::encode_utf8(a.drop_first()));
        assert(vstd::utf8::encode_utf8(a + b) =~= vstd::utf8::encode_scalar(a[0] as u32)
            + vstd::utf8::encode_utf8(a.drop_first() + b));
    }
}

} // verus!
