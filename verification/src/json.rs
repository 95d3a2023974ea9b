//! JSON documents, read and written by `serde_json`.
//!
//! A parsed document is carried through the verified code as an opaque
//! `serde_json::Value`. What the parser and the accessors return is not
//! proved here: each result is given a name, and the functions below are
//! believed to return exactly what their names stand for.

use vstd::prelude::*;

verus! {

#[verifier::external_type_specification]
#[verifier::external_body]
pub struct ExValue(serde_json::Value);

#[verifier::external_type_specification]
#[verifier::external_body]
pub struct ExError(serde_json::Error);

/// The document that `serde_json::from_str` reads from `text`, or `None`
/// where it reports an error.
pub uninterp spec fn json_parse(text: Seq<char>) -> Option<serde_json::Value>;

/// The member that `serde_json::Value::get` finds under `key`: present only
/// where `doc` is an object that holds `key`.
pub uninterp spec fn json_member(doc: serde_json::Value, key: Seq<char>) -> Option<serde_json::Value>;

/// The text that `serde_json::Value::as_str` returns: present only where
/// `doc` is a JSON string.
pub uninterp spec fn json_string(doc: serde_json::Value) -> Option<Seq<char>>;

/// The number that `serde_json::Value::as_u64` returns: present only where
/// `doc` is a non-negative integer below 2^64.
pub uninterp spec fn json_u64(doc: serde_json::Value) -> Option<u64>;

/// The JSON string literal, quotes and escapes included, that `serde_json`
/// writes for the text `s`.
pub uninterp spec fn json_quoted(s: Seq<char>) -> Seq<char>;

/// `serde_json::from_str::<Value>`: parses `text` as one JSON document. The
/// outcome is a function of the text alone; it is named `json_parse`.
#[verifier::external_body]
pub(crate) fn parse(text: &str) -> (r: Result<serde_json::Value, serde_json::Error>)
    ensures
        r matches Ok(doc) ==> json_parse(text@) == Some(doc),
        r is Err ==> json_parse(text@) is None,
{
    serde_json::from_str::<serde_json::Value>(text)
}

/// `serde_json::Value::get` with a string index: the member of an object
/// under `key`, named `json_member`.
#[verifier::external_body]
pub(crate) fn member<'a>(doc: &'a serde_json::Value, key: &str) -> (r: Option<&'a serde_json::Value>)
    ensures
        r matches Some(v) ==> json_member(*doc, key@) == Some(*v),
        r is None ==> json_member(*doc, key@) is None,
{
    doc.get(key)
}

/// `serde_json::Value::as_str`: the text of a JSON string, named
/// `json_string`.
#[verifier::external_body]
pub(crate) fn as_text<'a>(doc: &'a serde_json::Value) -> (r: Option<&'a str>)
    ensures
        r matches Some(s) ==> json_string(*doc) == Some(s@),
        r is None ==> json_string(*doc) is None,
{
    doc.as_str()
}

/// `serde_json::Value::as_u64`: the value of a non-negative JSON integer,
/// named `json_u64`.
#[verifier::external_body]
pub(crate) fn as_number(doc: &serde_json::Value) -> (r: Option<u64>)
    ensures
        r == json_u64(*doc),
{
    doc.as_u64()
}

/// `serde_json::Value::to_string` on a JSON string: the literal that
/// stands for `s` in a document, named `json_quoted`.
#[verifier::external_body]
pub(crate) fn quoted(s: &str) -> (r: String)
    ensures
        r@ == json_quoted(s@),
{
    serde_json::Value::String(s.to_owned()).to_string()
}

} // verus!
