//! What this crate reads out of JSON documents, and the calls into
//! `serde_json` that read it.

use serde_json::Value;
use vstd::prelude::*;

verus! {

/// A JSON document of `serde_json`.  Its inside is not modelled: the
/// functions below name what the crate's accessors read out of it.
#[verifier::external_type_specification]
#[verifier::external_body]
pub struct ExJsonValue(serde_json::Value);

/// The value that `serde_json::Value::pointer` finds in `doc` under the JSON
/// Pointer `pointer`, if it finds one.
pub uninterp spec fn json_pointer(doc: Value, pointer: Seq<char>) -> Option<Value>;

/// The text that `serde_json::Value::as_str` reads from `value`: that of a
/// JSON string, and nothing for any other kind of value.
pub uninterp spec fn json_str(value: Value) -> Option<Seq<char>>;

/// The elements that `serde_json::Value::as_array` reads from `value`: those
/// of a JSON array, and nothing for any other kind of value.
pub uninterp spec fn json_array(value: Value) -> Option<Seq<Value>>;

/// The value that indexing `value` with the string `key` gives: the member
/// of that name where `value` is an object that has one, and `null`
/// otherwise.
pub uninterp spec fn json_member(value: Value, key: Seq<char>) -> Value;

/// Calls `serde_json::Value::pointer`.  Trusted: the result is the value that
/// [`json_pointer`] names for this document and pointer.
#[verifier::external_body]
pub(crate) fn value_at<'a>(doc: &'a Value, path: &str) -> (found: Option<&'a Value>)
    ensures
        match found {
            Some(value) => json_pointer(*doc, path@) == Some(*value),
            None => json_pointer(*doc, path@) is None,
        },
{
    doc.pointer(path)
}

/// Calls `serde_json::Value::as_str`.  Trusted: the result is the text that
/// [`json_str`] names for this value.
#[verifier::external_body]
pub(crate) fn as_str<'a>(value: &'a Value) -> (text: Option<&'a str>)
    ensures
        match text {
            Some(s) => json_str(*value) == Some(s@),
            None => json_str(*value) is None,
        },
{
    value.as_str()
}

/// Calls `serde_json::Value::as_array`.  Trusted: the result holds the
/// elements that [`json_array`] names for this value.
#[verifier::external_body]
pub(crate) fn as_array<'a>(value: &'a Value) -> (items: Option<&'a Vec<Value>>)
    ensures
        match items {
            Some(list) => json_array(*value) == Some(list@),
            None => json_array(*value) is None,
        },
{
    value.as_array()
}

/// Indexes a `serde_json::Value` by a string, through its `Index` impl.
/// Trusted: the result is the value that [`json_member`] names.
#[verifier::external_body]
pub(crate) fn member<'a>(value: &'a Value, key: &str) -> (found: &'a Value)
    ensures
        *found == json_member(*value, key@),
{
    &value[key]
}

} // verus!
