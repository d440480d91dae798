//! The stored configuration document of a plugin: one JSON value, kept as
//! text in a file inside the plugin's root.
use vstd::prelude::*;

use crate::error::IpcError;
use crate::path::{render, AbsPath};

verus! {

#[verifier::external_type_specification]
#[verifier::external_body]
pub struct ExJsonValue(serde_json::Value);

#[verifier::external_type_specification]
#[verifier::external_body]
pub struct ExJsonError(serde_json::Error);

/// Relies on the `Display` impl of serde_json::Error for the message of an error.
#[verifier::external_body]
fn json_error_message(e: &serde_json::Error) -> (r: String) {
    e.to_string()
}

/// Whether serde_json reads the text as one JSON value.
pub uninterp spec fn json_accepts(text: Seq<char>) -> bool;

/// Relies on serde_json::to_vec: the JSON text of a value, as bytes. On a
/// `Value` it never fails: it writes into a `Vec`, every map key is a string,
/// and a number that is not finite is written as `null`.
#[verifier::external_body]
fn json_to_bytes(content: &serde_json::Value) -> (r: Result<Vec<u8>, serde_json::Error>)
    ensures
        r is Ok,
{
    serde_json::to_vec(content)
}

/// Relies on serde_json::from_str: reads one JSON value from a text, and
/// whether it succeeds depends on the text alone.
#[verifier::external_body]
fn json_from_text(text: &str) -> (r: Result<serde_json::Value, serde_json::Error>)
    ensures
        r is Ok <==> json_accepts(text@),
{
    serde_json::from_str(text)
}

/// The bytes to store for a value. Encoding a JSON value always succeeds.
pub fn encode_content(content: &serde_json::Value) -> (r: Result<Vec<u8>, IpcError>)
    ensures
        r is Ok,
{
    match json_to_bytes(content) {
        Ok(bytes) => Ok(bytes),
        Err(e) => Err(IpcError::Json(json_error_message(&e))),
    }
}

/// The value held by stored text. Empty text holds nothing yet (`None`):
/// that is what a document that was never stored reads as. Any other text
/// must be one JSON value, else it is a JSON error.
pub fn decode_content(text: &str) -> (r: Result<Option<serde_json::Value>, IpcError>)
    ensures
        text@.len() == 0 ==> r matches Ok(None),
        text@.len() > 0 && json_accepts(text@) ==> r matches Ok(Some(_)),
        text@.len() > 0 && !json_accepts(text@) ==> r matches Err(IpcError::Json(_)),
{
    if text.unicode_len() == 0 {
        return Ok(None);
    }
    match json_from_text(text) {
        Ok(v) => Ok(Some(v)),
        Err(e) => Err(IpcError::Json(json_error_message(&e))),
    }
}

/// What loading the stored configuration asks of the filesystem.
#[derive(Debug, PartialEq, Eq)]
pub enum LoadAction {
    /// Nothing was ever stored: create the file empty, so that it is there
    /// from now on. The value loaded is null.
    CreateEmpty(String),
    /// Read the file and decode its text (see `decode_content`).
    ReadText(String),
}

/// Loading the stored configuration kept in `file`, where `exists` says
/// whether anything is there.
pub fn load_plan(file: &AbsPath, exists: bool) -> (r: LoadAction)
    ensures
        !exists ==> (r matches LoadAction::CreateEmpty(p) && p@ == render(file@)),
        exists ==> (r matches LoadAction::ReadText(p) && p@ == render(file@)),
{
    if exists {
        LoadAction::ReadText(file.to_text())
    } else {
        LoadAction::CreateEmpty(file.to_text())
    }
}

} // verus!
