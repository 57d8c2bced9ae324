//! Base64 step of the pipeline: the encrypted bytes travel inside the
//! container as standard-alphabet base64 text.

use vstd::prelude::*;

use base64::Engine;
use base64::prelude::BASE64_STANDARD;

verus! {

/// What the standard-alphabet base64 encoder returns for `data`.
pub uninterp spec fn spec_b64_encode(data: Seq<u8>) -> Seq<u8>;

/// What the standard-alphabet base64 decoder returns for `text`: `None` when
/// `text` is not valid base64.
pub uninterp spec fn spec_b64_decode(text: Seq<u8>) -> Option<Seq<u8>>;

/// Relies on base64's `BASE64_STANDARD.encode`: a deterministic function of
/// the input bytes, and its own decoder inverts it.
#[verifier::external_body]
pub(crate) fn b64_encode(data: &Vec<u8>) -> (r: Vec<u8>)
    ensures
        r@ == spec_b64_encode(data@),
        spec_b64_decode(r@) == Some(data@),
{
    BASE64_STANDARD.encode(data).into_bytes()
}

/// Relies on base64's `BASE64_STANDARD.decode`: a deterministic function of
/// the input bytes that rejects text outside the standard alphabet.
#[verifier::external_body]
pub(crate) fn b64_decode(text: &[u8]) -> (r: Option<Vec<u8>>)
    ensures
        r is Some <==> spec_b64_decode(text@) is Some,
        r matches Some(v) ==> spec_b64_decode(text@) == Some(v@),
{
    match BASE64_STANDARD.decode(text) {
        Ok(v) => Some(v),
        Err(_) => None,
    }
}

} // verus!
