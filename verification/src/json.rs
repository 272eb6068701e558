//! Reading members of JSON text through `serde_json`.
//!
//! Tool calls and tool arguments travel as JSON text. The library never looks
//! inside a parsed `serde_json::Value`; it asks `serde_json` for one member
//! at a time and works with what comes back.

use vstd::prelude::*;

verus! {

/// The string member `key` of the JSON object written in `text`, as
/// `serde_json` reads it: `None` when `text` does not parse, is not an
/// object, has no member `key`, or that member is not a string.
pub uninterp spec fn json_str_member(text: Seq<char>, key: Seq<char>) -> Option<Seq<char>>;

/// The unsigned integer member `key` of the JSON object written in `text`,
/// as `serde_json`'s `Value::as_u64` reads it.
pub uninterp spec fn json_u64_member(text: Seq<char>, key: Seq<char>) -> Option<u64>;

/// The member `key` of the JSON object written in `text`, written back out
/// as compact JSON by `serde_json`.
pub uninterp spec fn json_member_text(text: Seq<char>, key: Seq<char>) -> Option<Seq<char>>;

/// `serde_json::from_str::<Value>(text)`, then `Value::get(key)` and
/// `Value::as_str`: the string member `key` of the object in `text`.
#[verifier::external_body]
pub(crate) fn str_member(text: &str, key: &str) -> (r: Option<String>)
    ensures
        r matches Some(s) ==> json_str_member(text@, key@) == Some(s@),
        r is None ==> json_str_member(text@, key@) is None,
{
    match serde_json::from_str::<serde_json::Value>(text) {
        Ok(v) => v.get(key).and_then(|m| m.as_str()).map(|s| s.to_string()),
        Err(_) => None,
    }
}

/// `serde_json::from_str::<Value>(text)`, then `Value::get(key)` and
/// `Value::as_u64`: the unsigned integer member `key` of the object in `text`.
#[verifier::external_body]
pub(crate) fn u64_member(text: &str, key: &str) -> (r: Option<u64>)
    ensures
        r == json_u64_member(text@, key@),
{
    match serde_json::from_str::<serde_json::Value>(text) {
        Ok(v) => v.get(key).and_then(|m| m.as_u64()),
        Err(_) => None,
    }
}

/// `serde_json::from_str::<Value>(text)`, then `Value::get(key)` and
/// `Value::to_string`: the member `key` of the object in `text`, as JSON text.
#[verifier::external_body]
pub(crate) fn member_text(text: &str, key: &str) -> (r: Option<String>)
    ensures
        r matches Some(s) ==> json_member_text(text@, key@) == Some(s@),
        r is None ==> json_member_text(text@, key@) is None,
{
    match serde_json::from_str::<serde_json::Value>(text) {
        Ok(v) => v.get(key).map(|m| m.to_string()),
        Err(_) => None,
    }
}

} // verus!

verus! {

/// The message `serde_json` gives when `text` is not valid JSON (`None`
/// when it is).
pub uninterp spec fn json_error_of(text: Seq<char>) -> Option<Seq<char>>;

/// The number of elements of the array member `key` of the object in `text`.
pub uninterp spec fn json_array_len(text: Seq<char>, key: Seq<char>) -> Option<usize>;

/// Element `i` of the array member `key` of the object in `text`, as JSON
/// text.
pub uninterp spec fn json_array_item(text: Seq<char>, key: Seq<char>, i: usize) -> Option<Seq<char>>;

/// `serde_json::from_str::<Value>(text)`: the error's message when `text`
/// does not parse.
#[verifier::external_body]
pub(crate) fn parse_error(text: &str) -> (r: Option<String>)
    ensures
        r matches Some(e) ==> json_error_of(text@) == Some(e@),
        r is None ==> json_error_of(text@) is None,
{
    match serde_json::from_str::<serde_json::Value>(text) {
        Ok(_) => None,
        Err(e) => Some(e.to_string()),
    }
}

/// `serde_json::from_str::<Value>(text)`, then `Value::get(key)` and
/// `Value::as_array`: the length of that array.
#[verifier::external_body]
pub(crate) fn array_len(text: &str, key: &str) -> (r: Option<usize>)
    ensures
        r == json_array_len(text@, key@),
{
    match serde_json::from_str::<serde_json::Value>(text) {
        Ok(v) => v.get(key).and_then(|m| m.as_array()).map(|a| a.len()),
        Err(_) => None,
    }
}

/// `serde_json::from_str::<Value>(text)`, then `Value::get(key)`,
/// `Value::as_array` and `Vec::get(i)`: that element, as JSON text.
#[verifier::external_body]
pub(crate) fn array_item(text: &str, key: &str, i: usize) -> (r: Option<String>)
    ensures
        r matches Some(s) ==> json_array_item(text@, key@, i) == Some(s@),
        r is None ==> json_array_item(text@, key@, i) is None,
{
    match serde_json::from_str::<serde_json::Value>(text) {
        Ok(v) => v.get(key).and_then(|m| m.as_array()).and_then(|a| a.get(i)).map(|x| x.to_string()),
        Err(_) => None,
    }
}

/// The integer member `key` of the object in `text`, as `Value::as_i64`
/// reads it.
pub uninterp spec fn json_i64_member(text: Seq<char>, key: Seq<char>) -> Option<i64>;

/// Element `i` of the array member `key` of the object in `text`, as
/// `Value::as_i64` reads it.
pub uninterp spec fn json_i64_item(text: Seq<char>, key: Seq<char>, i: usize) -> Option<i64>;

/// `serde_json::from_str::<Value>(text)`, then `Value::get(key)` and
/// `Value::as_i64`.
#[verifier::external_body]
pub(crate) fn i64_member(text: &str, key: &str) -> (r: Option<i64>)
    ensures
        r == json_i64_member(text@, key@),
{
    match serde_json::from_str::<serde_json::Value>(text) {
        Ok(v) => v.get(key).and_then(|m| m.as_i64()),
        Err(_) => None,
    }
}

/// `serde_json::from_str::<Value>(text)`, then `Value::get(key)`,
/// `Value::as_array`, `Vec::get(i)` and `Value::as_i64`.
#[verifier::external_body]
pub(crate) fn i64_item(text: &str, key: &str, i: usize) -> (r: Option<i64>)
    ensures
        r == json_i64_item(text@, key@, i),
{
    match serde_json::from_str::<serde_json::Value>(text) {
        Ok(v) => v.get(key).and_then(|m| m.as_array()).and_then(|a| a.get(i)).and_then(|x| x.as_i64()),
        Err(_) => None,
    }
}

} // verus!
