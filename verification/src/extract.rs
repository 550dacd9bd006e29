//! From an HTTP response body to a reading: the body is a JSON document,
//! the reading a string under a configured key of its top level.

use vstd::prelude::*;
use vstd::string::*;
use crate::decimal::{parse_reading, parsed_reading};
use crate::error::ParseError;
use crate::json::{json_document, member, parse_document, text_of};

verus! {

/// What looking up a key in a response body comes to.
#[derive(Clone, Debug, PartialEq, Eq)]
pub enum FieldLookup {
    /// The body is not a JSON document.
    NotJson,
    /// The document has no member under the key.
    Absent,
    /// The member under the key is not a string.
    NotText,
    /// The string under the key.
    Text(String),
}

/// A [`FieldLookup`] with its text as a sequence of characters.
#[verifier::ext_equal]
pub enum FieldLookupView {
    NotJson,
    Absent,
    NotText,
    Text(Seq<char>),
}

impl View for FieldLookup {
    type V = FieldLookupView;

    open spec fn view(&self) -> FieldLookupView {
        match self {
            FieldLookup::NotJson => FieldLookupView::NotJson,
            FieldLookup::Absent => FieldLookupView::Absent,
            FieldLookup::NotText => FieldLookupView::NotText,
            FieldLookup::Text(text) => FieldLookupView::Text(text@),
        }
    }
}

/// The lookup of a key in what the JSON reader made of a body: `document`
/// is `None` where the body is no JSON, else it maps each key of the top
/// level to the string under it, or to `None` where the member is of
/// another kind.
pub open spec fn lookup_in(
    document: Option<Map<Seq<char>, Option<Seq<char>>>>,
    key: Seq<char>,
) -> FieldLookupView {
    match document {
        None => FieldLookupView::NotJson,
        Some(members) => if !members.dom().contains(key) {
            FieldLookupView::Absent
        } else {
            match members[key] {
                None => FieldLookupView::NotText,
                Some(text) => FieldLookupView::Text(text),
            }
        },
    }
}

/// The reading that a lookup yields, or the error that belongs to it.
pub open spec fn reading_of(lookup: FieldLookupView) -> Result<u16, ParseError> {
    match lookup {
        FieldLookupView::NotJson => Err(ParseError::Json),
        FieldLookupView::Absent => Err(ParseError::MissingKey),
        FieldLookupView::NotText => Err(ParseError::WrongType),
        FieldLookupView::Text(text) => parsed_reading(text),
    }
}

/// Parses a response body and looks up the key in its top level.
pub fn lookup_field(body: &str, key: &str) -> (lookup: FieldLookup)
    ensures
        lookup@ == lookup_in(json_document(body@), key@),
{
    match parse_document(body) {
        Err(_) => FieldLookup::NotJson,
        Ok(document) => match member(&document, key) {
            None => FieldLookup::Absent,
            Some(found) => match text_of(found) {
                None => FieldLookup::NotText,
                Some(text) => FieldLookup::Text(String::from_str(text)),
            },
        },
    }
}

/// Turns a lookup into a reading: the text that was found must be a
/// decimal number that fits in 16 bits; each way in which nothing usable
/// was found has its own error.
pub fn reading_from_lookup(lookup: &FieldLookup) -> (r: Result<u16, ParseError>)
    ensures
        r == reading_of(lookup@),
{
    match lookup {
        FieldLookup::NotJson => Err(ParseError::Json),
        FieldLookup::Absent => Err(ParseError::MissingKey),
        FieldLookup::NotText => Err(ParseError::WrongType),
        FieldLookup::Text(text) => parse_reading(text.as_str()),
    }
}

/// The reading that a response body reports under a key.
pub fn extract_reading(body: &str, key: &str) -> (r: Result<u16, ParseError>)
    ensures
        r == reading_of(lookup_in(json_document(body@), key@)),
{
    let lookup = lookup_field(body, key);
    reading_from_lookup(&lookup)
}

} // verus!
