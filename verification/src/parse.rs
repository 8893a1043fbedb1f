//! The parsing boundary: JSON text is parsed by serde_json, and the parsed
//! tree is carried over into the library's own structured value union. The
//! parse result is named as a function of the input text alone; everything
//! after the parse is verified against that name.

use vstd::prelude::*;

use crate::value::{model_of, JsonSpec, JsonValue};

verus! {

#[verifier::external_type_specification]
#[verifier::external_body]
pub struct ExSerdeJsonValue(serde_json::Value);

/// The structured document that parsing a byte text yields, stated in this
/// library's model; `None` where the text is not a JSON document.
pub uninterp spec fn serde_json_doc(s: Seq<u8>) -> Option<JsonSpec>;

/// The model of one parsed serde_json value.
pub uninterp spec fn serde_value_model(v: serde_json::Value) -> JsonSpec;

/// Relies on serde_json::from_slice::<serde_json::Value>: whether the text
/// parses, and what it parses to, depend on the bytes alone.
#[verifier::external_body]
fn parse_serde(s: &[u8]) -> (r: Option<serde_json::Value>)
    ensures
        match r {
            Some(v) => serde_json_doc(s@) == Some(serde_value_model(v)),
            None => serde_json_doc(s@) is None,
        },
{
    serde_json::from_slice::<serde_json::Value>(s).ok()
}

/// Relies on serde_json::Value and serde_json::Number: each variant is carried
/// over one arm at a time (a number becomes unsigned if representable, else
/// signed, else its rendered token), fields moved, order kept.
#[verifier::external_body]
fn value_into_json(v: serde_json::Value) -> (r: JsonValue)
    ensures
        model_of(r) == serde_value_model(v),
{
    match v {
        serde_json::Value::Null => JsonValue::Null,
        serde_json::Value::Bool(b) => JsonValue::Bool(b),
        serde_json::Value::Number(n) => n.as_u64().map(JsonValue::UInt).or_else(
            || n.as_i64().map(JsonValue::Int),
        ).unwrap_or_else(|| JsonValue::Float(n.to_string().into_bytes())),
        serde_json::Value::String(s) => JsonValue::Str(s.into_bytes()),
        serde_json::Value::Array(a) => JsonValue::Arr(a.into_iter().map(value_into_json).collect()),
        serde_json::Value::Object(o) => JsonValue::Obj(
            o.into_iter().map(|(k, w)| (k.into_bytes(), value_into_json(w))).collect(),
        ),
    }
}

/// Parse a JSON text into a structured value.
pub fn parse_json(s: &[u8]) -> (r: Option<JsonValue>)
    ensures
        match r {
            Some(v) => serde_json_doc(s@) == Some(v@),
            None => serde_json_doc(s@) is None,
        },
{
    match parse_serde(s) {
        Some(v) => Some(value_into_json(v)),
        None => None,
    }
}

} // verus!
