//! The version pin: a small JSON document, `global.json`, that names the SDK
//! version a project asks for.

use crate::json::{json_content, json_error_text, json_object, json_pretty, json_text, pretty_json, JsonDoc};
use crate::paths::{join_path, joined_path};
use vstd::prelude::*;

verus! {

/// Why no pin could be planned.
#[derive(Debug, PartialEq, Eq)]
pub enum PinError {
    /// The document could not be serialised; the text is the cause.
    Serialization(String),
}

/// The pin document for a version: `{ "sdk": { "version": <version> } }`.
/// The version is stored as given.
pub open spec fn pin_document(version: Seq<char>) -> JsonDoc {
    JsonDoc::Object(
        seq![("sdk"@, JsonDoc::Object(seq![("version"@, JsonDoc::Text(version))]))],
    )
}

/// The name of the pin file in the working directory.
pub open spec fn pin_file_name() -> Seq<char> {
    "global.json"@
}

/// The name of the file that keeps the previous pin.
pub open spec fn pin_backup_name() -> Seq<char> {
    "global.json.bak"@
}

/// What to do to pin a version: keep the previous file, if there is one,
/// then write the new document.
#[derive(Debug, PartialEq, Eq)]
pub struct PinPlan {
    /// The file to write.
    pub target: String,
    /// Where to copy the previous file first, if it exists. A failure of
    /// that copy does not hold up the write.
    pub backup: Option<String>,
    /// The bytes to write.
    pub content: Vec<u8>,
}

/// What the serialiser's answer comes to: its bytes, or the library's error
/// with the serialiser's message.
pub fn rendered(outcome: Result<Vec<u8>, serde_json::Error>) -> (r: Result<Vec<u8>, PinError>)
    ensures
        match outcome {
            Ok(bytes) => r == Ok::<Vec<u8>, PinError>(bytes),
            Err(_) => r matches Err(PinError::Serialization(_)),
        },
{
    match outcome {
        Ok(bytes) => Ok(bytes),
        Err(e) => Err(PinError::Serialization(json_error_text(&e))),
    }
}

/// The pin document for `version`, as a JSON value ready to be written.
pub fn pin_value(version: &str) -> (doc: serde_json::Value)
    ensures
        json_content(doc) == pin_document(version@),
{
    let leaf = json_text(version);
    let sdk = json_object("version", leaf);
    json_object("sdk", sdk)
}

/// The bytes of the pin document for `version`, pretty-printed. Any
/// version is taken as it is: the document can always be written.
pub fn pin_document_bytes(version: &str) -> (r: Result<Vec<u8>, PinError>)
    ensures
        r matches Ok(bytes) && bytes@ == pretty_json(pin_document(version@)),
{
    let doc = pin_value(version);
    rendered(json_pretty(&doc))
}

/// The plan that follows from the serialised document: where serialising
/// failed, its error and no plan; else the plan that writes those bytes to
/// the pin file of `workdir`, after a copy of the previous file where
/// `exists` says that there is one.
pub fn plan_for_document(workdir: &str, exists: bool, document: Result<Vec<u8>, PinError>) -> (r:
    Result<PinPlan, PinError>)
    ensures
        match document {
            Ok(bytes) => r matches Ok(plan) && {
                &&& plan.target@ == joined_path(workdir@, pin_file_name())
                &&& plan.backup is Some == exists
                &&& plan.backup matches Some(b) ==> b@ == joined_path(workdir@, pin_backup_name())
                &&& plan.content == bytes
            },
            Err(e) => r == Err::<PinPlan, PinError>(e),
        },
{
    match document {
        Ok(content) => {
            let target = join_path(workdir, "global.json");
            let backup = if exists {
                Some(join_path(workdir, "global.json.bak"))
            } else {
                None
            };
            Ok(PinPlan { target, backup, content })
        },
        Err(e) => Err(e),
    }
}

/// Plans the pin of `version` in the directory `workdir`, where `exists`
/// says whether a pin file is already there. Any version is taken as it
/// is, so there is always a plan: write the document to the pin file, after
/// a copy of the previous file where there is one.
pub fn plan_pin(workdir: &str, version: &str, exists: bool) -> (r: Result<PinPlan, PinError>)
    ensures
        r matches Ok(plan) && {
            &&& plan.target@ == joined_path(workdir@, pin_file_name())
            &&& plan.backup is Some == exists
            &&& plan.backup matches Some(b) ==> b@ == joined_path(workdir@, pin_backup_name())
            &&& plan.content@ == pretty_json(pin_document(version@))
        },
{
    plan_for_document(workdir, exists, pin_document_bytes(version))
}

} // verus!
