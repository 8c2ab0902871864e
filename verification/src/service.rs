//! Decision parts of the request operations exposed to the presentation
//! layer: identifier-gated URL construction for the external viewer,
//! and the outcome of a note fetch.

use vstd::prelude::*;
use vstd::string::*;
use crate::ids::{is_valid_joplin_id, is_valid_note_id};
use crate::types::{ErrorCode, Note};

verus! {

/// The URL that opens a note in the external viewer, owed exactly for
/// well-formed identifiers; a malformed id is rejected before anything
/// acts on it.
pub fn open_note_url(note_id: &str) -> (r: Result<String, ErrorCode>)
    ensures
        r is Ok <==> is_valid_note_id(note_id.spec_bytes()),
        r is Ok ==> r->Ok_0@ == "joplin://x-callback-url/openNote?id="@ + note_id@,
        r is Err ==> r == Err::<String, ErrorCode>(ErrorCode::InvalidNoteId),
{
    if !is_valid_joplin_id(note_id) {
        return Err(ErrorCode::InvalidNoteId);
    }
    let mut url = "joplin://x-callback-url/openNote?id=".to_owned();
    url.append(note_id);
    Ok(url)
}

/// The outcome of fetching a note by id from the store: the note when
/// the store had one, the not-found condition otherwise.
pub fn note_fetch_outcome(found: Option<Note>) -> (r: Result<Note, ErrorCode>)
    ensures
        found is Some ==> r == Ok::<Note, ErrorCode>(found->0),
        found is None ==> r == Err::<Note, ErrorCode>(ErrorCode::NoteNotFound),
{
    match found {
        Some(n) => Ok(n),
        None => Err(ErrorCode::NoteNotFound),
    }
}

} // verus!
