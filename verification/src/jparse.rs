//! The parsing boundary: bytes come in from the wire, JSON values come out.
//! Parsing is delegated to serde_json; everything downstream of it is
//! computed and verified on the crate's own JSON type.

use vstd::prelude::*;

use crate::json::Json;

verus! {

#[verifier::external_type_specification]
#[verifier::external_body]
pub struct ExValue(serde_json::Value);

/// The JSON value that a byte sequence denotes, if it is well-formed JSON.
/// The result is a function of the bytes alone.
pub uninterp spec fn text_json(s: Seq<u8>) -> Option<Json>;

/// Relies on the shape of `serde_json::Value`: each variant is carried over
/// one-for-one; a number that fits `u64` keeps its value, any other number
/// keeps its decimal text (via `serde_json::Number`'s `Display`).
#[verifier::external_body]
fn value_to_json(v: serde_json::Value) -> Json {
    match v {
        serde_json::Value::Null => Json::Null,
        serde_json::Value::Bool(b) => Json::Bool(b),
        serde_json::Value::Number(n) => match n.as_u64() {
            Some(u) => Json::Int(u),
            None => Json::NumRaw(n.to_string()),
        },
        serde_json::Value::String(s) => Json::Str(s),
        serde_json::Value::Array(a) => Json::Arr(a.into_iter().map(value_to_json).collect()),
        serde_json::Value::Object(o) => Json::Obj(
            o.into_iter().map(|(k, x)| (k, value_to_json(x))).collect(),
        ),
    }
}

/// Relies on `serde_json::from_slice::<serde_json::Value>`: accepts exactly
/// well-formed JSON, deterministically in the bytes; duplicate object keys
/// collapse to one entry.
#[verifier::external_body]
pub fn parse_json(bytes: &[u8]) -> (r: Option<Json>)
    ensures
        r == text_json(bytes@),
{
    match serde_json::from_slice::<serde_json::Value>(bytes) {
        Ok(v) => Some(value_to_json(v)),
        Err(_) => None,
    }
}

} // verus!
