//! Reading `serde_json` values.
//!
//! A fetched page is a JSON text, which `serde_json` turns into a
//! `serde_json::Value`. Verus does not look inside one; what this crate reads
//! from it goes through the six functions at the end of this file, whose
//! contracts are taken on trust from the `serde_json` source. What each
//! returns depends on its arguments alone, and is named by a specification
//! function without a body.

use vstd::prelude::*;

verus! {

/// Makes `serde_json::Value` known to Verus, as a type that it cannot look
/// into.
#[verifier::external_type_specification]
#[verifier::external_body]
pub struct ExValue(serde_json::Value);

/// Makes `serde_json::Error` known to Verus, as a type that it cannot look
/// into.
#[verifier::external_type_specification]
#[verifier::external_body]
pub struct ExError(serde_json::Error);

/// The value that the JSON text `text` describes; `None` where `text` is no
/// JSON document.
pub uninterp spec fn json_document(text: Seq<char>) -> Option<serde_json::Value>;

/// The member that the JSON object `value` holds under `key`; `None` where
/// `value` is no object or holds no such member.
pub uninterp spec fn json_member(value: serde_json::Value, key: Seq<char>) -> Option<
    serde_json::Value,
>;

/// The text of `value` where it is a JSON string, `None` where it is anything
/// else.
pub uninterp spec fn json_text(value: serde_json::Value) -> Option<Seq<char>>;

/// The number `value` where it is a JSON integer from 0 to `u64::MAX`, `None`
/// where it is anything else.
pub uninterp spec fn json_count(value: serde_json::Value) -> Option<u64>;

/// The elements of `value` where it is a JSON array, `None` where it is
/// anything else.
pub uninterp spec fn json_items(value: serde_json::Value) -> Option<Seq<serde_json::Value>>;

/// Whether `value` is the JSON `null`.
pub uninterp spec fn json_null(value: serde_json::Value) -> bool;

/// Calls `serde_json::from_str` for a `Value`. Trusted: the call succeeds
/// where `json_document` names a value, and returns that value. The source
/// reads one JSON value from the text and reports every text that is not
/// exactly one; it gives up on nesting deeper than 128 levels with an error,
/// and does not panic.
#[verifier::external_body]
pub(crate) fn decode(text: &str) -> (r: Result<serde_json::Value, serde_json::Error>)
    ensures
        r is Ok <==> json_document(text@) is Some,
        r matches Ok(document) ==> document == json_document(text@)->0,
{
    serde_json::from_str::<serde_json::Value>(text)
}

/// Calls `serde_json::Value::get` with a string index. Trusted: the result is
/// the member under `key` as `json_member` names it. The source returns the
/// entry of the object's map, and `None` for every value that is not an
/// object; it does not panic.
#[verifier::external_body]
pub(crate) fn member<'a>(value: &'a serde_json::Value, key: &str) -> (r: Option<
    &'a serde_json::Value,
>)
    ensures
        r is Some <==> json_member(*value, key@) is Some,
        r matches Some(found) ==> *found == json_member(*value, key@)->0,
{
    value.get(key)
}

/// Calls `serde_json::Value::as_str`. Trusted: the result is the text that
/// `json_text` names. The source returns the string of the `String` variant
/// and `None` for every other variant.
#[verifier::external_body]
pub(crate) fn text(value: &serde_json::Value) -> (r: Option<String>)
    ensures
        r is Some <==> json_text(*value) is Some,
        r matches Some(found) ==> found@ == json_text(*value)->0,
{
    match value.as_str() {
        Some(found) => Some(found.to_string()),
        None => None,
    }
}

/// Calls `serde_json::Value::as_u64`. Trusted: the result is the number that
/// `json_count` names. The source returns the number of the `Number` variant
/// where it is a non-negative integer, and `None` otherwise.
#[verifier::external_body]
pub(crate) fn count(value: &serde_json::Value) -> (r: Option<u64>)
    ensures
        r == json_count(*value),
{
    value.as_u64()
}

/// Calls `serde_json::Value::as_array` and copies what it finds. Trusted: the
/// result holds the elements that `json_items` names, in order. The source
/// returns the vector of the `Array` variant and `None` for every other
/// variant.
#[verifier::external_body]
pub(crate) fn items(value: &serde_json::Value) -> (r: Option<Vec<serde_json::Value>>)
    ensures
        r is Some <==> json_items(*value) is Some,
        r matches Some(found) ==> found@ == json_items(*value)->0,
{
    match value.as_array() {
        Some(found) => Some(found.clone()),
        None => None,
    }
}

/// Calls `serde_json::Value::is_null`. Trusted: the result is what
/// `json_null` names. The source answers `true` for the `Null` variant alone.
#[verifier::external_body]
pub(crate) fn is_null(value: &serde_json::Value) -> (r: bool)
    ensures
        r == json_null(*value),
{
    value.is_null()
}

} // verus!
