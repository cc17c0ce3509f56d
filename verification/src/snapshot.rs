//! The checks a snapshot passes before it replaces the one on disk, and the
//! decision what the store holds after a snapshot was read back.

use vstd::prelude::*;
use vstd::utf8::{decode_utf8, valid_utf8};
use crate::chat::ChatModel;
use crate::codec::{decode, decoded, Json};
use crate::manager::DictionaryManager;
use crate::store::Store;
use crate::text::{ends_with, is_suffix};
use crate::wellformed::dictionary_wf;

verus! {

/// The error of the JSON parser, carried through as it is.
#[verifier::external_type_specification]
#[verifier::external_body]
pub struct ExJsonError(serde_json::Error);

/// Whether a text is one JSON value and nothing else, as the JSON parser
/// judges it.
pub uninterp spec fn well_formed_json(text: Seq<char>) -> bool;

/// Trusted: `serde_json::from_str::<serde_json::Value>`, with the value
/// dropped. The verdict depends on the characters of the text alone; the
/// contract names it and states nothing else.
#[verifier::external_body]
pub(crate) fn check_json(text: &str) -> (r: Result<(), serde_json::Error>)
    ensures
        r is Ok == well_formed_json(text@),
{
    serde_json::from_str::<serde_json::Value>(text).map(drop)
}

/// Trusted: `serde_json::Error::to_string`, the parser's own words for an
/// error. Nothing is claimed of them.
#[verifier::external_body]
pub(crate) fn error_text(error: &serde_json::Error) -> (r: String) {
    error.to_string()
}

/// Trusted: `core::str::from_utf8`. It succeeds exactly on valid UTF-8, and
/// then with the text that the bytes encode.
#[verifier::external_body]
pub(crate) fn utf8_text(bytes: &[u8]) -> (r: Option<&str>)
    ensures
        match r {
            Some(text) => valid_utf8(bytes@) && text@ == decode_utf8(bytes@),
            None => !valid_utf8(bytes@),
        },
{
    core::str::from_utf8(bytes).ok()
}

/// Why an uploaded snapshot was turned away.
#[derive(Clone, Debug)]
pub enum ImportError {
    /// The bytes are no UTF-8 text.
    NotUtf8,
    /// The text is no JSON; the parser's words for it are attached.
    NotJson(String),
}

/// A snapshot is accepted for writing when its bytes are UTF-8 text that is
/// well-formed JSON. Whether the document has the shape of a dictionary is
/// not asked here.
pub open spec fn import_accepted(bytes: Seq<u8>) -> bool {
    valid_utf8(bytes) && well_formed_json(decode_utf8(bytes))
}

/// A file is taken for a snapshot unless it has a name that does not end in
/// `.json`.
pub fn accepts_file_name(name: Option<&String>) -> (r: bool)
    ensures
        r == match name {
            Some(name) => is_suffix(".json"@, name@),
            None => true,
        },
{
    match name {
        Some(name) => ends_with(name.as_str(), ".json"),
        None => true,
    }
}

/// The verdict on a text once the JSON parser has judged it.
pub fn import_verdict<'a>(text: &'a str, judged: Result<(), String>) -> (r: Result<
    &'a str,
    ImportError,
>)
    ensures
        match judged {
            Ok(_) => r is Ok && r->Ok_0@ == text@,
            Err(reason) => r is Err && r->Err_0 == ImportError::NotJson(reason),
        },
{
    match judged {
        Ok(_) => Ok(text),
        Err(reason) => Err(ImportError::NotJson(reason)),
    }
}

/// Checks the bytes of an uploaded snapshot and hands back the text to
/// write to disk.
pub fn validate_import(bytes: &[u8]) -> (r: Result<&str, ImportError>)
    ensures
        match r {
            Ok(text) => import_accepted(bytes@) && text@ == decode_utf8(bytes@),
            Err(ImportError::NotUtf8) => !valid_utf8(bytes@),
            Err(ImportError::NotJson(_)) => valid_utf8(bytes@) && !well_formed_json(
                decode_utf8(bytes@),
            ),
        },
{
    match utf8_text(bytes) {
        None => Err(ImportError::NotUtf8),
        Some(text) => {
            let judged = match check_json(text) {
                Ok(_) => Ok(()),
                Err(error) => Err(error_text(&error)),
            };
            import_verdict(text, judged)
        },
    }
}

/// What was found where the snapshot is kept.
#[derive(Clone, Debug)]
pub enum Snapshot {
    /// There is no snapshot.
    Missing,
    /// There is one, but it does not decode to a dictionary.
    Undecodable,
    /// The dictionary that the snapshot holds.
    Decoded(DictionaryManager),
}

/// What a document that was read back holds: the dictionary where it has
/// the layout of one.
pub fn from_document(document: &Json) -> (r: Snapshot)
    ensures
        match decoded(*document) {
            Some(chats) => r is Decoded && r->Decoded_0@ == chats && dictionary_wf(chats),
            None => r is Undecodable,
        },
{
    match decode(document) {
        Some(manager) => Snapshot::Decoded(manager),
        None => Snapshot::Undecodable,
    }
}

/// What a load did.
#[derive(Clone, Copy, Debug, PartialEq, Eq, Structural)]
pub struct LoadReport {
    /// The number of chats the store holds now.
    pub chats: usize,
    /// Whether a snapshot was there and could not be decoded.
    pub decode_failed: bool,
}

/// The dictionary that a store holds after a load.
pub open spec fn loaded(snapshot: Snapshot) -> Seq<(Seq<char>, ChatModel)> {
    match snapshot {
        Snapshot::Decoded(manager) => manager@,
        _ => Seq::empty(),
    }
}

/// Installs what was read back as the live dictionary. A snapshot that is
/// missing or does not decode gives the empty dictionary; the second is
/// reported, and neither is an error.
pub fn load(store: &mut Store, snapshot: Snapshot) -> (report: LoadReport)
    ensures
        final(store)@ == Some(loaded(snapshot)),
        report.chats == loaded(snapshot).len(),
        report.decode_failed == (snapshot is Undecodable),
        snapshot is Decoded ==> dictionary_wf(snapshot->Decoded_0@) == dictionary_wf(
            final(store)@->0,
        ),
        !(snapshot is Decoded) ==> dictionary_wf(final(store)@->0),
{
    let decode_failed = match &snapshot {
        Snapshot::Undecodable => true,
        _ => false,
    };
    let manager = match snapshot {
        Snapshot::Decoded(manager) => manager,
        _ => DictionaryManager::new(),
    };
    let chats = manager.chats.len();
    store.install(manager);
    LoadReport { chats, decode_failed }
}

} // verus!
