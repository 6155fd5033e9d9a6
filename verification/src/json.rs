//! JSON documents.

use vstd::prelude::*;

verus! {

/// A decoded JSON document.
#[verifier::external_type_specification]
#[verifier::external_body]
pub struct ExValue(serde_json::Value);

/// The document that a JSON text writes, where it writes one.
pub uninterp spec fn json_document(text: Seq<char>) -> Option<serde_json::Value>;

/// The members of a JSON object; none for any other document.
pub uninterp spec fn json_members(value: serde_json::Value) -> Map<Seq<char>, serde_json::Value>;

/// The text of a JSON string.
pub uninterp spec fn json_text(value: serde_json::Value) -> Option<Seq<char>>;

/// The integer of a JSON number that is a 64-bit integer.
pub uninterp spec fn json_integer(value: serde_json::Value) -> Option<i64>;

/// Whether the document is an object.
pub uninterp spec fn json_is_object(value: serde_json::Value) -> bool;

/// The member of an object with the given key.
pub open spec fn json_member(value: serde_json::Value, key: Seq<char>) -> Option<
    serde_json::Value,
> {
    if json_members(value).dom().contains(key) {
        Some(json_members(value)[key])
    } else {
        None
    }
}

/// `serde_json::from_str` into a `Value`: the document that the text writes, and
/// nothing where the text is no JSON document.
#[verifier::external_body]
pub(crate) fn parse(text: &str) -> (r: Option<serde_json::Value>)
    ensures
        r == json_document(text@),
{
    serde_json::from_str(text).ok()
}

/// `serde_json::Value::get` with a string: the member of an object with that key.
#[verifier::external_body]
pub(crate) fn member<'a>(value: &'a serde_json::Value, key: &str) -> (r: Option<
    &'a serde_json::Value,
>)
    ensures
        match r {
            Some(found) => json_members(*value).dom().contains(key@) && json_members(*value)[key@]
                == *found,
            None => !json_members(*value).dom().contains(key@),
        },
{
    value.get(key)
}

/// `serde_json::Value::as_str`: the text of a string.
#[verifier::external_body]
pub(crate) fn as_text(value: &serde_json::Value) -> (r: Option<&str>)
    ensures
        match r {
            Some(found) => json_text(*value) == Some(found@),
            None => json_text(*value) is None,
        },
{
    value.as_str()
}

/// `serde_json::Value::as_i64`: the number, where it is a 64-bit integer.
#[verifier::external_body]
pub(crate) fn as_integer(value: &serde_json::Value) -> (r: Option<i64>)
    ensures
        r == json_integer(*value),
{
    value.as_i64()
}

/// `serde_json::Value::is_object`: whether the document is an object.
#[verifier::external_body]
pub(crate) fn is_object(value: &serde_json::Value) -> (r: bool)
    ensures
        r == json_is_object(*value),
{
    value.is_object()
}

} // verus!
