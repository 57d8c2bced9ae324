//! The codec facade: the full decode pipeline (strip framing, base64-decode,
//! decrypt, parse JSON) and the full encode pipeline (parse JSON, serialize
//! canonically, encrypt, base64-encode, add framing), each pinned to a
//! specification-level pipeline over the same stages.

use vstd::prelude::*;

use crate::b64::b64_decode;
use crate::b64::b64_encode;
use crate::b64::spec_b64_decode;
use crate::b64::spec_b64_encode;
use crate::cipher::decrypt;
use crate::cipher::decrypt_spec;
use crate::cipher::encrypt;
use crate::cipher::encrypt_spec;
use crate::error::CodecError;
use crate::framing::add_framing;
use crate::framing::framed;
use crate::framing::lemma_strip_framed;
use crate::framing::strip_framing;
use crate::framing::strip_spec;
use crate::json::JsonObject;
use crate::json::json_parse_object;
use crate::json::json_syntax_ok;
use crate::json::json_to_bytes;
use crate::json::spec_json_canon;
use crate::json::spec_json_parse;
use crate::json::spec_json_syntax_ok;

verus! {

/// What `decode` returns for raw container bytes: each stage either hands its
/// output to the next or names the stage that failed.
pub open spec fn decode_spec(bytes: Seq<u8>) -> Result<JsonObject, CodecError> {
    match strip_spec(bytes) {
        Option::None => Result::Err(CodecError::Framing),
        Option::Some(payload) => match spec_b64_decode(payload) {
            Option::None => Result::Err(CodecError::Decoding),
            Option::Some(ct) => match decrypt_spec(ct) {
                Option::None => Result::Err(CodecError::Cipher),
                Option::Some(pt) => match spec_json_parse(pt) {
                    Option::Some(obj) => Result::Ok(obj),
                    Option::None => if spec_json_syntax_ok(pt) {
                        Result::Err(CodecError::JsonShape)
                    } else {
                        Result::Err(CodecError::JsonSyntax)
                    },
                },
            },
        },
    }
}

/// The container that `encode` builds for a JSON object: its canonical text,
/// encrypted, base64-encoded and framed.
pub open spec fn container_spec(obj: JsonObject) -> Seq<u8> {
    framed(spec_b64_encode(encrypt_spec(spec_json_canon(obj))))
}

/// What `encode` returns for input bytes: the container of the object the
/// bytes parse to, or the error naming why they do not parse.
pub open spec fn encode_spec(bytes: Seq<u8>) -> Result<Seq<u8>, CodecError> {
    match spec_json_parse(bytes) {
        Option::Some(obj) => Result::Ok(container_spec(obj)),
        Option::None => if spec_json_syntax_ok(bytes) {
            Result::Err(CodecError::JsonShape)
        } else {
            Result::Err(CodecError::JsonSyntax)
        },
    }
}

/// Decodes a save-file container into its JSON object.
pub fn decode(bytes: &[u8]) -> (r: Result<JsonObject, CodecError>)
    ensures
        r == decode_spec(bytes@),
{
    let payload = match strip_framing(bytes) {
        Ok(p) => p,
        Err(e) => {
            return Err(e);
        },
    };
    let ct = match b64_decode(payload.as_slice()) {
        Option::Some(v) => v,
        Option::None => {
            return Err(CodecError::Decoding);
        },
    };
    let pt = match decrypt(ct) {
        Ok(v) => v,
        Err(e) => {
            return Err(e);
        },
    };
    match json_parse_object(pt.as_slice()) {
        Option::Some(obj) => Ok(obj),
        Option::None => {
            if json_syntax_ok(pt.as_slice()) {
                Err(CodecError::JsonShape)
            } else {
                Err(CodecError::JsonSyntax)
            }
        },
    }
}

/// Encodes JSON text into a save-file container.
///
/// The last two clauses are the codec's round-trip guarantees: a container
/// this function builds decodes back to the very object that was encoded, and
/// re-encoding that object's canonical text rebuilds the container byte for
/// byte.
pub fn encode(bytes: Vec<u8>) -> (r: Result<Vec<u8>, CodecError>)
    ensures
        r is Ok <==> encode_spec(bytes@) is Ok,
        r matches Ok(c) ==> encode_spec(bytes@) == Result::Ok::<Seq<u8>, CodecError>(c@),
        r matches Err(e) ==> encode_spec(bytes@) == Result::Err::<Seq<u8>, CodecError>(e),
        r matches Ok(c) ==> (spec_json_parse(bytes@) matches Some(obj) ==> decode_spec(c@)
            == Result::Ok::<JsonObject, CodecError>(obj)),
        r matches Ok(c) ==> (spec_json_parse(bytes@) matches Some(obj) ==> encode_spec(
            spec_json_canon(obj),
        ) == Result::Ok::<Seq<u8>, CodecError>(c@)),
{
    let obj = match json_parse_object(bytes.as_slice()) {
        Option::Some(obj) => obj,
        Option::None => {
            if json_syntax_ok(bytes.as_slice()) {
                return Err(CodecError::JsonShape);
            } else {
                return Err(CodecError::JsonSyntax);
            }
        },
    };
    let canon = json_to_bytes(&obj);
    let ct = encrypt(canon);
    let payload = b64_encode(&ct);
    let ghost payload_view = payload@;
    let container = add_framing(payload);
    proof {
        lemma_strip_framed(payload_view);
    }
    Ok(container)
}

/// Two JSON texts that parse to the same object encode to the same container:
/// the canonical re-serialization erases whitespace and formatting, and no
/// stage of the pipeline depends on anything but its input bytes.
pub proof fn lemma_encode_same_object(b1: Seq<u8>, b2: Seq<u8>)
    requires
        spec_json_parse(b1) is Some,
        spec_json_parse(b1) == spec_json_parse(b2),
    ensures
        encode_spec(b1) == encode_spec(b2),
{
}

} // verus!
