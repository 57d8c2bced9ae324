//! JSON step of the pipeline. The decoded plaintext is parsed into a
//! string-keyed JSON object, and an object is serialized back to compact
//! canonical text; both directions are delegated to serde_json and the object
//! itself stays opaque to the codec.

use vstd::prelude::*;

verus! {

/// Declares serde_json's `Map` so that parsed objects can pass through the
/// codec; the codec never looks inside one.
#[verifier::external_type_specification]
#[verifier::external_body]
#[verifier::reject_recursive_types(K)]
#[verifier::reject_recursive_types(V)]
pub struct ExJsonMap<K, V>(serde_json::Map<K, V>);

/// Declares serde_json's `Value`, the value type of a parsed object.
#[verifier::external_type_specification]
#[verifier::external_body]
pub struct ExJsonValue(serde_json::Value);

/// A parsed save file: a string-keyed JSON object.
pub type JsonObject = serde_json::Map<String, serde_json::Value>;

/// What parsing `text` as a JSON object returns: `None` when `text` is not
/// valid JSON or not an object.
pub uninterp spec fn spec_json_parse(text: Seq<u8>) -> Option<JsonObject>;

/// Whether `text` is well-formed JSON of any shape.
pub uninterp spec fn spec_json_syntax_ok(text: Seq<u8>) -> bool;

/// The compact serialization of a JSON object.
pub uninterp spec fn spec_json_canon(obj: JsonObject) -> Seq<u8>;

/// Relies on `serde_json::from_slice::<Map<String, Value>>`: a deterministic
/// parse, and a text it accepts is well-formed JSON, so the plain `Value`
/// parser accepts it too.
#[verifier::external_body]
pub(crate) fn json_parse_object(text: &[u8]) -> (r: Option<JsonObject>)
    ensures
        r == spec_json_parse(text@),
        r is Some ==> spec_json_syntax_ok(text@),
{
    serde_json::from_slice::<JsonObject>(text).ok()
}

/// Relies on `serde_json::from_slice::<Value>`: it decides whether `text` is
/// well-formed JSON.
#[verifier::external_body]
pub(crate) fn json_syntax_ok(text: &[u8]) -> (r: bool)
    ensures
        r == spec_json_syntax_ok(text@),
{
    serde_json::from_slice::<serde_json::Value>(text).is_ok()
}

/// Relies on `serde_json::to_string`: compact serialization of a string-keyed
/// map never fails and is deterministic, and `from_slice` parses the text back
/// to the same map.
#[verifier::external_body]
pub(crate) fn json_to_bytes(obj: &JsonObject) -> (r: Vec<u8>)
    ensures
        r@ == spec_json_canon(*obj),
        spec_json_parse(r@) == Some(*obj),
{
    serde_json::to_string(obj).unwrap().into_bytes()
}

} // verus!
