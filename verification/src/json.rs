//! JSON as `serde_json` reads and writes it: the documents that the generation
//! service sends back, and the text that is sent to it.
//!
//! A `serde_json::Value` is opaque to the verifier. [`Json`] says what such a
//! value holds, and the functions at the end of this file are believed to
//! behave as their contracts say over it; none of them is proved. The decoding
//! built on them lives in `ai` and is proved.

use vstd::prelude::*;

verus! {

/// `serde_json::Value`, a JSON document in memory.
#[verifier::external_type_specification]
#[verifier::external_body]
pub struct ExValue(serde_json::Value);

/// What a JSON document holds.
pub enum Json {
    Null,
    Bool(bool),
    /// A number, as the text that `serde_json` writes for it.
    Number(Seq<char>),
    String(Seq<char>),
    Array(Seq<Json>),
    /// An object: its members with their keys, in the order in which the
    /// document in memory goes through them. No key occurs twice.
    Object(Seq<(Seq<char>, Json)>),
}

/// The member with key `key` among the members of an object.
pub open spec fn member_among(members: Seq<(Seq<char>, Json)>, key: Seq<char>) -> Option<Json>
    decreases members.len(),
{
    if members.len() == 0 {
        None
    } else if members[0].0 == key {
        Some(members[0].1)
    } else {
        member_among(members.skip(1), key)
    }
}

impl Json {
    /// The member with key `key`, where this is an object that has one.
    pub open spec fn member(self, key: Seq<char>) -> Option<Json> {
        match self {
            Json::Object(members) => member_among(members, key),
            _ => None,
        }
    }

    /// The element at `position`, where this is an array that long.
    pub open spec fn element(self, position: int) -> Option<Json> {
        match self {
            Json::Array(elements) => if 0 <= position < elements.len() {
                Some(elements[position])
            } else {
                None
            },
            _ => None,
        }
    }

    /// The characters, where this is a string.
    pub open spec fn text(self) -> Option<Seq<char>> {
        match self {
            Json::String(characters) => Some(characters),
            _ => None,
        }
    }
}

/// Whether a character stands for itself in the text of a JSON string: it is
/// no control character, no quotation mark and no backslash.
pub open spec fn stands_for_itself(c: char) -> bool {
    c as u32 >= 0x20 && c != '"' && c != '\\'
}

/// Whether every character of a text stands for itself in a JSON string.
pub open spec fn is_plain(text: Seq<char>) -> bool {
    forall|at: int| 0 <= at < text.len() ==> stands_for_itself(#[trigger] text[at])
}

/// A text between quotation marks.
pub open spec fn quoted(text: Seq<char>) -> Seq<char> {
    seq!['"'] + text + seq!['"']
}

/// What a `serde_json::Value` holds.
pub uninterp spec fn json_view(value: serde_json::Value) -> Json;

/// The document that `serde_json::from_slice` reads from `body`; `None` where
/// it rejects the bytes.
pub uninterp spec fn json_document(body: Seq<u8>) -> Option<Json>;

/// The compact JSON text that the `Display` implementation of
/// `serde_json::Value` writes for a value that holds `document`.
pub uninterp spec fn json_written(document: Json) -> Seq<char>;

/// Whether a document is a string of which every character stands for itself.
pub open spec fn is_plain_string(document: Json) -> bool {
    document is String && is_plain(document->String_0)
}

/// The compact JSON text of a document. A string of which every character
/// stands for itself is written between quotation marks as it is; of every
/// other document the text is whatever `serde_json` writes.
pub open spec fn written(document: Json) -> Seq<char> {
    if is_plain_string(document) {
        quoted(document->String_0)
    } else {
        json_written(document)
    }
}

/// What a borrowed value holds, if there is one.
pub open spec fn held(found: Option<&serde_json::Value>) -> Option<Json> {
    match found {
        Some(value) => Some(json_view(*value)),
        None => None,
    }
}

/// Calls `serde_json::from_slice` for a `serde_json::Value`. What the parser
/// reads depends on the bytes alone; a parse error becomes `None` and its
/// detail is dropped.
#[verifier::external_body]
pub(crate) fn parse(body: &[u8]) -> (document: Option<serde_json::Value>)
    ensures
        match document {
            Some(value) => json_document(body@) == Some(json_view(value)),
            None => json_document(body@) is None,
        },
{
    match serde_json::from_slice::<serde_json::Value>(body) {
        Ok(value) => Some(value),
        Err(_) => None,
    }
}

/// Calls `serde_json::Value::get` with a string index: the member under `key`
/// of an object, `None` for a missing key or a value that is no object.
#[verifier::external_body]
pub(crate) fn member<'a>(value: &'a serde_json::Value, key: &str) -> (found: Option<
    &'a serde_json::Value,
>)
    ensures
        held(found) == json_view(*value).member(key@),
{
    value.get(key)
}

/// Calls `serde_json::Value::get` with an integer index: the element at
/// `position` of an array, `None` past its end or for a value that is no array.
#[verifier::external_body]
pub(crate) fn element<'a>(value: &'a serde_json::Value, position: usize) -> (found: Option<
    &'a serde_json::Value,
>)
    ensures
        held(found) == json_view(*value).element(position as int),
{
    value.get(position)
}

/// Calls `serde_json::Value::as_str`: the characters of a JSON string, `None`
/// for any other kind of value.
#[verifier::external_body]
pub(crate) fn text<'a>(value: &'a serde_json::Value) -> (found: Option<&'a str>)
    ensures
        match found {
            Some(characters) => json_view(*value).text() == Some(characters@),
            None => json_view(*value).text() is None,
        },
{
    value.as_str()
}

/// Calls `serde_json::Value::from` on a string slice, which makes a JSON
/// string of a copy of the text.
#[verifier::external_body]
pub(crate) fn string_value(text: &str) -> (value: serde_json::Value)
    ensures
        json_view(value) == Json::String(text@),
{
    serde_json::Value::from(text)
}

/// Formats a `serde_json::Value` through its `Display` implementation, which
/// writes the value as compact JSON text. A string is written between
/// quotation marks, and only control characters, quotation marks and
/// backslashes in it are replaced by escapes.
#[verifier::external_body]
pub(crate) fn rendered(value: &serde_json::Value) -> (text: String)
    ensures
        text@ == if is_plain_string(json_view(*value)) {
            quoted(json_view(*value)->String_0)
        } else {
            json_written(json_view(*value))
        },
{
    value.to_string()
}

} // verus!
