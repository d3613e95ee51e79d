//! What the library asks of JSON text: whether it parses, and whether it has a given
//! string member. Both are answered by `serde_json`.
use vstd::prelude::*;

verus! {

/// `text` parses as a JSON value (`serde_json::from_str::<serde_json::Value>`).
pub uninterp spec fn json_valid(text: Seq<char>) -> bool;

/// `text` parses as a JSON object that has a member `key` whose value is a string
/// (`Value::get` with a key, then `Value::as_str`).
pub uninterp spec fn json_string_member(text: Seq<char>, key: Seq<char>) -> bool;

/// Whether `text` parses as JSON (`serde_json::from_str` into a `serde_json::Value`).
/// The answer is determined by the text.
#[verifier::external_body]
pub(crate) fn is_json(text: &str) -> (r: bool)
    ensures
        r == json_valid(text@),
{
    serde_json::from_str::<serde_json::Value>(text).is_ok()
}

/// Whether `text` parses as JSON (`serde_json::from_str`) into a value whose member
/// `key` (`Value::get`, which finds members of objects only) is a string
/// (`Value::as_str`). The answer is determined by the two texts.
#[verifier::external_body]
pub(crate) fn has_string_member(text: &str, key: &str) -> (r: bool)
    ensures
        r == json_string_member(text@, key@),
{
    match serde_json::from_str::<serde_json::Value>(text) {
        Ok(v) => v.get(key).and_then(|m| m.as_str()).is_some(),
        Err(_) => false,
    }
}

} // verus!
