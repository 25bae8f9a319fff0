//! Parsing the comment-tolerant JSON dialect, through the outside parser.
//!
//! The parsing itself is an outside capability: the parser turns text into
//! a value or fails with a description, and this library maps that value
//! one for one onto [`JsonValue`]. What the parser accepts takes pages to
//! state, but it depends on the text alone, so the outcome is only named
//! here, by [`parsed_hjson`]; everything this library decides about a
//! parsed value is stated and proved over [`JsonValue`] in the other
//! modules.

use vstd::prelude::*;

use serde_hjson::Value;

use crate::json::JsonValue;

verus! {

/// Relies on serde_hjson::Value, the parser's own value type, declared
/// here so that the conversion below can take it; it is opaque to the
/// proofs.
#[verifier::external_type_specification]
#[verifier::external_body]
pub struct ExHjsonValue(serde_hjson::Value);

/// What parsing a text yields: a value of this library, or the
/// description of the failure. The outcome is a function of the text
/// alone.
pub uninterp spec fn parsed_hjson(text: Seq<char>) -> Result<JsonValue, Seq<char>>;

/// Relies on serde_hjson::Value: each variant is mapped one for one onto
/// its counterpart. A floating-point number has no counterpart in this
/// library, so it yields `None`.
#[verifier::external_body]
fn value_to_json(v: Value) -> Option<JsonValue> {
    match v {
        Value::Null => Some(JsonValue::Null),
        Value::Bool(b) => Some(JsonValue::Bool(b)),
        Value::I64(n) => Some(JsonValue::Int(n)),
        Value::U64(n) => Some(JsonValue::UInt(n)),
        Value::F64(_) => None,
        Value::String(s) => Some(JsonValue::Text(s)),
        Value::Array(a) => a.into_iter().map(value_to_json).collect::<Option<_>>().map(
            JsonValue::Array,
        ),
        Value::Object(m) => m.into_iter().map(|p| Some((p.0, value_to_json(p.1)?))).collect::<
            Option<_>,
        >().map(JsonValue::Object),
    }
}

/// Relies on serde_hjson::from_str: the parse, and the message of a
/// failed parse, are functions of the text alone. `parsed_hjson` names
/// the outcome.
#[verifier::external_body]
pub(crate) fn parse_hjson(text: &String) -> (r: Result<JsonValue, String>)
    ensures
        (match r {
            Ok(v) => parsed_hjson(text@) == Ok::<JsonValue, Seq<char>>(v),
            Err(m) => parsed_hjson(text@) == Err::<JsonValue, Seq<char>>(m@),
        }),
{
    match serde_hjson::from_str::<serde_hjson::Value>(text.as_str()) {
        Ok(v) => match value_to_json(v) {
            Some(j) => Ok(j),
            None => Err("number not representable".to_string()),
        },
        Err(e) => Err(e.to_string()),
    }
}

} // verus!
