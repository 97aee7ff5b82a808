//! The trusted parsing boundary.
//!
//! Strict-JSON parsing is delegated to serde_json. The parse result is a
//! function of the input bytes alone, so it is given a name, [`json_doc`],
//! and the wrapper's contract states that the tree it returns is exactly
//! that named value. Everything downstream of parsing is verified against
//! [`json_doc`].
use crate::json::JsonData;
use crate::json::JsonValue;
use vstd::prelude::*;

verus! {

#[verifier::external_type_specification]
#[verifier::external_body]
pub struct ExValue(serde_json::Value);

/// The tree that the bytes parse to as strict JSON, if they parse: `None`
/// exactly when parsing fails. Object fields come in the order serde_json's
/// map keeps them (sorted by key); a number is kept as its textual form.
pub uninterp spec fn json_doc(s: Seq<u8>) -> Option<JsonData>;

/// Relies on serde_json: a `Value` is one of null, a boolean, a number, a
/// string, an array, or an object, and each variant is moved across into the
/// library's own tree, a number as its textual form.
#[verifier::external_body]
pub(crate) fn from_value(v: serde_json::Value) -> JsonValue {
    match v {
        serde_json::Value::Null => JsonValue::Null,
        serde_json::Value::Bool(b) => JsonValue::Bool(b),
        serde_json::Value::Number(n) => JsonValue::Number(n.to_string()),
        serde_json::Value::String(s) => JsonValue::Text(s),
        serde_json::Value::Array(items) => JsonValue::Array(
            items.into_iter().map(from_value).collect(),
        ),
        serde_json::Value::Object(fields) => JsonValue::Object(
            fields.into_iter().map(|p| (p.0, from_value(p.1))).collect(),
        ),
    }
}

/// Relies on serde_json::from_slice::<serde_json::Value>: whether the bytes
/// parse, and the tree they parse to, depend on the bytes alone.
#[verifier::external_body]
pub(crate) fn parse_json(text: &Vec<u8>) -> (r: Option<JsonValue>)
    ensures
        r.deep_view() == json_doc(text@),
{
    match serde_json::from_slice::<serde_json::Value>(text.as_slice()) {
        Ok(v) => Some(from_value(v)),
        Err(_) => None,
    }
}

} // verus!
