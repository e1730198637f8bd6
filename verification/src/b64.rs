//! Base64 encoding and decoding (standard alphabet with padding), used for
//! binary property payloads in the textual FBX form.

use vstd::prelude::*;

verus! {

/// What `base64::encode` returns for the given bytes.
pub uninterp spec fn b64_encode_of(b: Seq<u8>) -> Seq<char>;

/// What `base64::decode` returns for the given characters: the decoded
/// bytes, or nothing when the input is not well-formed base64.
pub uninterp spec fn b64_decode_of(s: Seq<char>) -> Option<Seq<u8>>;

/// Relies on `base64::encode`: standard alphabet with padding; the result
/// is a function of the input bytes alone.
#[verifier::external_body]
pub(crate) fn b64_encode(b: &[u8]) -> (r: String)
    ensures
        r@ == b64_encode_of(b@),
{
    base64::encode(b)
}

/// Relies on `base64::decode`: standard alphabet with padding; succeeds or
/// fails, and with which bytes, as a function of the input characters alone.
#[verifier::external_body]
pub(crate) fn b64_decode(s: &str) -> (r: Option<Vec<u8>>)
    ensures
        match r {
            Some(v) => b64_decode_of(s@) == Some(v@),
            None => b64_decode_of(s@) is None,
        },
{
    base64::decode(s).ok()
}

} // verus!
