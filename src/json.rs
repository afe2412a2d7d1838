//! What the library needs of JSON: the value found at a JSON Pointer within a
//! document, and string literals for request bodies.

use vstd::prelude::*;

verus! {

/// What a JSON Pointer addresses within a JSON text.
#[derive(Clone, Debug, PartialEq, Eq)]
pub enum JsonSlot {
    /// The text is not valid JSON.
    Malformed,
    /// The text is valid JSON, but nothing stands at the pointer.
    Absent,
    Null,
    Bool(bool),
    Number,
    Text(String),
    /// An array, with its number of elements.
    Array(usize),
    Object,
}

/// What serde_json finds at `pointer` in the JSON text `text`.
pub uninterp spec fn json_slot(text: Seq<char>, pointer: Seq<char>) -> JsonSlot;

/// The JSON string literal that serde_json writes for `s`, quotes included.
pub uninterp spec fn serde_json_quoted(s: Seq<char>) -> Seq<char>;

/// The JSON string literal that musli's JSON encoding writes for `s`, quotes
/// included.
pub uninterp spec fn musli_json_quoted(s: Seq<char>) -> Seq<char>;

/// Relies on `serde_json::from_str::<serde_json::Value>` to parse `text` and
/// on `serde_json::Value::pointer` to look `pointer` up in it.
#[verifier::external_body]
pub(crate) fn json_lookup(text: &str, pointer: &str) -> (r: JsonSlot)
    ensures
        r == json_slot(text@, pointer@),
{
    match serde_json::from_str::<serde_json::Value>(text) {
        Err(_) => JsonSlot::Malformed,
        Ok(v) => match v.pointer(pointer) {
            None => JsonSlot::Absent,
            Some(serde_json::Value::Null) => JsonSlot::Null,
            Some(serde_json::Value::Bool(b)) => JsonSlot::Bool(*b),
            Some(serde_json::Value::Number(_)) => JsonSlot::Number,
            Some(serde_json::Value::String(s)) => JsonSlot::Text(s.clone()),
            Some(serde_json::Value::Array(a)) => JsonSlot::Array(a.len()),
            Some(serde_json::Value::Object(_)) => JsonSlot::Object,
        },
    }
}

/// Relies on `serde_json::to_string` on a `str`: the quoted and escaped
/// literal. Writing a `str` into memory does not fail.
#[verifier::external_body]
pub(crate) fn serde_json_string(s: &str) -> (r: String)
    ensures
        r@ == serde_json_quoted(s@),
{
    serde_json::to_string(s).unwrap_or_default()
}

/// Relies on `musli::json::to_string` on a `str`: the quoted and escaped
/// literal. Writing a `str` into memory does not fail.
#[verifier::external_body]
pub(crate) fn musli_json_string(s: &str) -> (r: String)
    ensures
        r@ == musli_json_quoted(s@),
{
    musli::json::to_string(s).unwrap_or_default()
}

} // verus!
