//! Reading JSON documents through `serde_json`: each `serde_json` call the
//! library makes is one trusted item here, with its result named; what the
//! library reads from a document (which members, in which order) is
//! verified code built on these.
use vstd::prelude::*;

verus! {

#[verifier::external_type_specification]
#[verifier::external_body]
pub struct ExJsonValue(serde_json::Value);

/// `serde_json::Value`'s derived `Clone` copies the whole tree, so the
/// copy equals its source.
pub assume_specification[ <serde_json::Value as Clone>::clone ](v: &serde_json::Value) -> (r: serde_json::Value)
    ensures
        r == *v,
;

/// The document `serde_json::from_str::<serde_json::Value>` reads from
/// `text`, or `None` when `text` is not JSON.
pub uninterp spec fn json_parse(text: Seq<char>) -> Option<serde_json::Value>;

/// The member `key` of `v` when `v` is an object holding it
/// (`serde_json::Value::get` with a string key); `None` otherwise.
pub uninterp spec fn json_member(v: serde_json::Value, key: Seq<char>) -> Option<serde_json::Value>;

/// The string `v` holds (`serde_json::Value::as_str`), or `None` when `v`
/// is not a string.
pub uninterp spec fn json_str(v: serde_json::Value) -> Option<Seq<char>>;

/// The integer `v` holds when it fits an `i64`
/// (`serde_json::Value::as_i64`), or `None`.
pub uninterp spec fn json_i64(v: serde_json::Value) -> Option<i64>;

/// The boolean `v` holds (`serde_json::Value::as_bool`), or `None` when
/// `v` is not a boolean.
pub uninterp spec fn json_bool(v: serde_json::Value) -> Option<bool>;

/// The elements of `v` when it is an array (`serde_json::Value::as_array`),
/// or `None`.
pub uninterp spec fn json_array(v: serde_json::Value) -> Option<Seq<serde_json::Value>>;

/// The compact JSON text of `v` (`serde_json::to_string`).
pub uninterp spec fn json_text(v: serde_json::Value) -> Seq<char>;

/// `v` is the JSON `null` value.
pub uninterp spec fn is_json_null(v: serde_json::Value) -> bool;

/// The view of an optional string.
pub open spec fn opt_string_view(o: Option<String>) -> Option<Seq<char>> {
    match o {
        Some(s) => Some(s@),
        None => None,
    }
}

/// Parses `text` with `serde_json::from_str::<serde_json::Value>`; `None`
/// when it is not JSON. The outcome is named by `json_parse`.
#[verifier::external_body]
pub(crate) fn json_from_str(text: &str) -> (r: Option<serde_json::Value>)
    ensures
        r == json_parse(text@),
{
    serde_json::from_str::<serde_json::Value>(text).ok()
}

/// A copy of the member `key` of `v` (`serde_json::Value::get`); named by
/// `json_member`.
#[verifier::external_body]
pub(crate) fn json_get(v: &serde_json::Value, key: &str) -> (r: Option<serde_json::Value>)
    ensures
        r == json_member(*v, key@),
{
    v.get(key).cloned()
}

/// The string `v` holds (`serde_json::Value::as_str`); named by
/// `json_str`.
#[verifier::external_body]
pub(crate) fn json_as_str(v: &serde_json::Value) -> (r: Option<String>)
    ensures
        opt_string_view(r) == json_str(*v),
{
    v.as_str().map(|s| s.to_string())
}

/// The integer `v` holds (`serde_json::Value::as_i64`); named by
/// `json_i64`.
#[verifier::external_body]
pub(crate) fn json_as_i64(v: &serde_json::Value) -> (r: Option<i64>)
    ensures
        r == json_i64(*v),
{
    v.as_i64()
}

/// The boolean `v` holds (`serde_json::Value::as_bool`); named by
/// `json_bool`.
#[verifier::external_body]
pub(crate) fn json_as_bool(v: &serde_json::Value) -> (r: Option<bool>)
    ensures
        r == json_bool(*v),
{
    v.as_bool()
}

/// A copy of the elements of `v` when it is an array
/// (`serde_json::Value::as_array`); named by `json_array`.
#[verifier::external_body]
pub(crate) fn json_as_array(v: &serde_json::Value) -> (r: Option<Vec<serde_json::Value>>)
    ensures
        match r {
            Some(a) => json_array(*v) == Some(a@),
            None => json_array(*v) is None,
        },
{
    v.as_array().cloned()
}

/// The compact JSON text of `v` (`serde_json::to_string`, which cannot
/// fail on a `Value`: its object keys are strings); named by `json_text`.
#[verifier::external_body]
pub(crate) fn json_to_string(v: &serde_json::Value) -> (r: String)
    ensures
        r@ == json_text(*v),
{
    serde_json::to_string(v).unwrap_or_default()
}

/// `serde_json::Value::Null`.
#[verifier::external_body]
pub(crate) fn json_null() -> (r: serde_json::Value)
    ensures
        is_json_null(r),
{
    serde_json::Value::Null
}

/// The string held by member `key` of `v`.
pub open spec fn member_str(v: serde_json::Value, key: Seq<char>) -> Option<Seq<char>> {
    match json_member(v, key) {
        Some(m) => json_str(m),
        None => None,
    }
}

/// The elements of the array held by member `key` of `v`.
pub open spec fn member_array(v: serde_json::Value, key: Seq<char>) -> Option<Seq<serde_json::Value>> {
    match json_member(v, key) {
        Some(m) => json_array(m),
        None => None,
    }
}

/// The string held by member `key` of `v`, if any.
pub(crate) fn get_str(v: &serde_json::Value, key: &str) -> (r: Option<String>)
    ensures
        opt_string_view(r) == member_str(*v, key@),
{
    match json_get(v, key) {
        Some(m) => json_as_str(&m),
        None => None,
    }
}

/// The elements of the array held by member `key` of `v`, if any.
pub(crate) fn get_array(v: &serde_json::Value, key: &str) -> (r: Option<Vec<serde_json::Value>>)
    ensures
        match r {
            Some(a) => member_array(*v, key@) == Some(a@),
            None => member_array(*v, key@) is None,
        },
{
    match json_get(v, key) {
        Some(m) => json_as_array(&m),
        None => None,
    }
}

} // verus!
