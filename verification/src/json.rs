//! The JSON reader that the library rests on. Nothing in this file is
//! proved: each item states what `serde_json` does, as its source shows it.

use vstd::prelude::*;

verus! {

/// `serde_json::Value`, a parsed JSON document or a part of one. The
/// library carries it and never looks inside.
#[verifier::external_type_specification]
#[verifier::external_body]
pub struct ExValue(serde_json::Value);

/// `serde_json::Error`, the reason why a text is no JSON document.
#[verifier::external_type_specification]
#[verifier::external_body]
pub struct ExError(serde_json::Error);

/// The members of a JSON object that are reached by key, as
/// `serde_json::Value::get` finds them, each seen through
/// [`json_text`]. A value that is no object has no members.
pub uninterp spec fn json_members(value: serde_json::Value) -> Map<Seq<char>, Option<Seq<char>>>;

/// The characters of a JSON string, as `serde_json::Value::as_str` gives
/// them; `None` for a value of any other kind.
pub uninterp spec fn json_text(value: serde_json::Value) -> Option<Seq<char>>;

/// What `serde_json::from_str` makes of a text, seen through
/// [`json_members`]: `None` where it reports an error, else the members of
/// the document that it read.
pub uninterp spec fn json_document(text: Seq<char>) -> Option<Map<Seq<char>, Option<Seq<char>>>>;

/// `serde_json::from_str`, read as a `Value`. It returns `Ok` on the texts
/// that are one JSON value between optional white space and nested no
/// deeper than its recursion limit, and `Err` on every other text; it does
/// not panic. The contract names the outcome and claims that one text
/// always gives the same one.
#[verifier::external_body]
pub(crate) fn parse_document(text: &str) -> (r: Result<serde_json::Value, serde_json::Error>)
    ensures
        match r {
            Ok(value) => json_document(text@) == Some(json_members(value)),
            Err(_) => json_document(text@) is None,
        },
{
    serde_json::from_str::<serde_json::Value>(text)
}

/// `serde_json::Value::get` with a string key: the member under that key
/// where the value is an object that has one, else `None`.
#[verifier::external_body]
pub(crate) fn member<'a>(value: &'a serde_json::Value, key: &str) -> (r: Option<&'a serde_json::Value>)
    ensures
        r is Some <==> json_members(*value).dom().contains(key@),
        r matches Some(found) ==> json_members(*value)[key@] == json_text(*found),
{
    value.get(key)
}

/// `serde_json::Value::as_str`: the string that the value holds, or `None`
/// where it is a null, a boolean, a number, an array or an object.
#[verifier::external_body]
pub(crate) fn text_of<'a>(value: &'a serde_json::Value) -> (r: Option<&'a str>)
    ensures
        match r {
            Some(text) => json_text(*value) == Some(text@),
            None => json_text(*value) is None,
        },
{
    value.as_str()
}

} // verus!
