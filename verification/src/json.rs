//! JSON documents, built and written by `serde_json`.
//!
//! A `serde_json::Value` passes through the library unopened. What it holds
//! is named by [`json_content`], and the text that the pretty printer writes
//! for it by [`pretty_json`].

use vstd::prelude::*;

verus! {

#[verifier::external_type_specification]
#[verifier::external_body]
pub struct ExJsonValue(serde_json::Value);

#[verifier::external_type_specification]
#[verifier::external_body]
pub struct ExJsonError(serde_json::Error);

/// The shape of a JSON document, as far as the library builds any: a text,
/// or an object with its members in order.
pub enum JsonDoc {
    Text(Seq<char>),
    Object(Seq<(Seq<char>, JsonDoc)>),
}

/// The document that a `serde_json::Value` holds.
pub uninterp spec fn json_content(value: serde_json::Value) -> JsonDoc;

/// The bytes that `serde_json`'s pretty printer writes for a document.
pub uninterp spec fn pretty_json(doc: JsonDoc) -> Seq<u8>;

/// Makes a JSON string with `serde_json::Value::from`.
///
/// Trusted: the value is a string that holds `text`.
#[verifier::external_body]
pub(crate) fn json_text(text: &str) -> (value: serde_json::Value)
    ensures
        json_content(value) == JsonDoc::Text(text@),
{
    serde_json::Value::from(text)
}

/// Makes a JSON object of one member: `serde_json::Map::new`, one
/// `serde_json::Map::insert`, and `serde_json::Value::from` on the map.
///
/// Trusted: the value is an object whose only member has the key `key` and
/// holds what `member` held.
#[verifier::external_body]
pub(crate) fn json_object(key: &str, member: serde_json::Value) -> (value: serde_json::Value)
    ensures
        json_content(value) == JsonDoc::Object(seq![(key@, json_content(member))]),
{
    let mut map = serde_json::Map::new();
    map.insert(key.to_owned(), member);
    serde_json::Value::from(map)
}

/// Writes a value with `serde_json::to_writer_pretty` into a byte vector.
///
/// Trusted: the call succeeds, and the bytes are those that the pretty
/// printer writes, which depend on what the value holds alone. For a
/// `serde_json::Value` every error that the serialiser raises is one that the
/// writer handed to it, and a byte vector does not fail to be written to.
#[verifier::external_body]
pub(crate) fn json_pretty(value: &serde_json::Value) -> (r: Result<Vec<u8>, serde_json::Error>)
    ensures
        r is Ok,
        r matches Ok(bytes) ==> bytes@ == pretty_json(json_content(*value)),
{
    let mut bytes = Vec::new();
    match serde_json::to_writer_pretty(&mut bytes, value) {
        Ok(()) => Ok(bytes),
        Err(e) => Err(e),
    }
}

/// The message of a `serde_json::Error`, as its `Display` writes it.
#[verifier::external_body]
pub(crate) fn json_error_text(error: &serde_json::Error) -> String {
    error.to_string()
}

} // verus!
