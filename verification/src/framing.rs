//! Container framing: a fixed 22-byte header, a variable-length prefix
//! carrying the payload length, the payload itself, and a terminator byte.

use vstd::prelude::*;

use crate::error::CodecError;
use crate::prefix::decode_prefix;
use crate::prefix::encode_prefix;
use crate::prefix::lemma_scan_stops;
use crate::prefix::lemma_vlq_shape;
use crate::prefix::prefix_bytes;
use crate::prefix::prefix_scan;
use crate::prefix::vlq;

verus! {

/// The byte every container ends with.
pub const TERMINATOR: u8 = 11;

/// The fixed header that opens every container.
pub open spec fn header_seq() -> Seq<u8> {
    seq![
        0u8, 1, 0, 0, 0, 255, 255, 255, 255, 1, 0, 0, 0, 0, 0, 0, 0, 6, 1, 0, 0, 0,
    ]
}

/// A whole container around `payload`: header, length prefix, payload,
/// terminator.
pub open spec fn framed(payload: Seq<u8>) -> Seq<u8> {
    header_seq() + prefix_bytes(payload.len() as int) + payload + seq![TERMINATOR]
}

/// What stripping the framing from `s` yields: the bytes after the header and
/// the length prefix, up to the final byte. `None` when `s` is shorter than
/// header plus terminator or the prefix runs past the end.
pub open spec fn strip_spec(s: Seq<u8>) -> Option<Seq<u8>> {
    if s.len() < 23 {
        None
    } else {
        let inner = s.subrange(22, s.len() - 1);
        match prefix_scan(inner, 0) {
            Option::None => None,
            Option::Some(l) => Some(inner.skip(l)),
        }
    }
}

/// The fixed header as a buffer.
fn header_vec() -> (r: Vec<u8>)
    ensures
        r@ == header_seq(),
{
    let mut v: Vec<u8> = Vec::new();
    v.push(0);
    v.push(1);
    v.push(0);
    v.push(0);
    v.push(0);
    v.push(255);
    v.push(255);
    v.push(255);
    v.push(255);
    v.push(1);
    v.push(0);
    v.push(0);
    v.push(0);
    v.push(0);
    v.push(0);
    v.push(0);
    v.push(0);
    v.push(6);
    v.push(1);
    v.push(0);
    v.push(0);
    v.push(0);
    assert(v@ =~= header_seq());
    v
}

/// Wraps `payload` in the container framing.
pub fn add_framing(payload: Vec<u8>) -> (r: Vec<u8>)
    ensures
        r@ == framed(payload@),
{
    let ghost p = payload@;
    let mut out = header_vec();
    let mut pre = encode_prefix(payload.len());
    out.append(&mut pre);
    let mut body = payload;
    out.append(&mut body);
    out.push(TERMINATOR);
    assert(out@ =~= framed(p));
    out
}

/// Strips the container framing from `bytes`, returning the payload.
pub fn strip_framing(bytes: &[u8]) -> (r: Result<Vec<u8>, CodecError>)
    ensures
        r matches Ok(v) ==> strip_spec(bytes@) == Some(v@),
        r is Err <==> strip_spec(bytes@) is None,
        r matches Err(e) ==> e == CodecError::Framing,
{
    if bytes.len() < 23 {
        return Err(CodecError::Framing);
    }
    let inner = vstd::slice::slice_subrange(bytes, 22, bytes.len() - 1);
    match decode_prefix(inner) {
        Option::None => Err(CodecError::Framing),
        Option::Some((_value, consumed)) => {
            let payload = vstd::slice::slice_to_vec(vstd::slice::slice_subrange(
                inner,
                consumed,
                inner.len(),
            ));
            assert(payload@ =~= inner@.skip(consumed as int));
            Ok(payload)
        },
    }
}

/// Stripping the framing that `add_framing` put around a payload yields that
/// payload again, whatever its length.
pub proof fn lemma_strip_framed(p: Seq<u8>)
    ensures
        strip_spec(framed(p)) == Some(p),
{
    let n = p.len() as int;
    let clamped: int = if n > 0x7FFF_FFFF {
        0x7FFF_FFFF
    } else {
        n
    };
    lemma_vlq_shape(clamped);
    let pre = prefix_bytes(n);
    assert(pre == vlq(clamped));
    let l = pre.len() as int;
    let s = framed(p);
    assert(s.len() == 22 + l + n + 1);
    let inner = s.subrange(22, s.len() - 1);
    assert(inner =~= pre + p);
    assert(forall|j: int| 0 <= j < l - 1 ==> inner[j] >= 128);
    assert(l <= 4 ==> inner[l - 1] < 128);
    lemma_scan_stops(inner, l, 0);
    assert(inner.skip(l) =~= p);
}

/// A well-formed container — one that `add_framing` could have produced —
/// strips to a payload that frames back to the same bytes.
pub proof fn lemma_framed_strip(s: Seq<u8>)
    requires
        exists|p: Seq<u8>| s == framed(p),
    ensures
        match strip_spec(s) {
            Option::Some(q) => s == framed(q),
            Option::None => false,
        },
{
    let p = choose|p: Seq<u8>| s == framed(p);
    lemma_strip_framed(p);
}

} // verus!
