//! Core data types: notes, their cached metadata, search results, index
//! status, and the error conditions surfaced to callers.
//!
//! Similarity scores and progress ratios are held in thousandths (an
//! integer between 0 and 1000), so that score arithmetic and comparisons
//! are exact.

use vstd::prelude::*;

verus! {

/// One whole unit of similarity or progress, in thousandths.
pub const SCORE_UNIT: u32 = 1000;

/// The similarity floor: hits scoring below 300 thousandths (0.30) are
/// discarded from search results.
pub const MIN_SCORE: u32 = 300;

/// At most this many results are returned from a search.
pub const MAX_RESULTS: usize = 10;

/// How many candidates are requested from the vector index per query,
/// before tombstone filtering, cache joining and deduplication.
pub const DEFAULT_TOP_K: usize = 25;

/// A note as read from the external store. The store owns the data; this
/// system only reads it.
#[derive(Debug)]
pub struct Note {
    /// 32-character lowercase hex identifier.
    pub id: String,
    pub title: String,
    pub body: String,
    /// Unix timestamp in milliseconds.
    pub updated_time: i64,
}

impl Clone for Note {
    fn clone(&self) -> (r: Self)
        ensures
            r == *self,
    {
        Note {
            id: self.id.clone(),
            title: self.title.clone(),
            body: self.body.clone(),
            updated_time: self.updated_time,
        }
    }
}

/// Body-less projection of a note, kept resident for cheap result
/// assembly; one entry per note currently believed live.
#[derive(Debug)]
pub struct NoteMetadata {
    pub id: String,
    pub title: String,
    pub updated_time: i64,
}

impl Clone for NoteMetadata {
    fn clone(&self) -> (r: Self)
        ensures
            r == *self,
    {
        NoteMetadata {
            id: self.id.clone(),
            title: self.title.clone(),
            updated_time: self.updated_time,
        }
    }
}

/// One raw hit handed back by the vector index: a note id and a
/// similarity score in thousandths, already converted from the index's
/// native distance and clamped to [0, SCORE_UNIT].
#[derive(Debug)]
pub struct IndexResult {
    pub note_id: String,
    pub score: u32,
}

impl Clone for IndexResult {
    fn clone(&self) -> (r: Self)
        ensures
            r == *self,
    {
        IndexResult { note_id: self.note_id.clone(), score: self.score }
    }
}

/// A ranked search result: cached metadata plus the similarity score in
/// thousandths.
#[derive(Debug)]
pub struct SearchResult {
    pub note: NoteMetadata,
    pub score: u32,
}

impl Clone for SearchResult {
    fn clone(&self) -> (r: Self)
        ensures
            r == *self,
    {
        SearchResult { note: self.note.clone(), score: self.score }
    }
}

/// Status reported to the presentation layer; recomputed at each pipeline
/// stage. `download_progress` is in thousandths.
#[derive(Debug)]
pub struct IndexStatus {
    pub total_notes: usize,
    pub indexed_notes: usize,
    pub is_ready: bool,
    pub is_downloading_model: bool,
    pub download_progress: u32,
    pub error: Option<String>,
}

impl Clone for IndexStatus {
    fn clone(&self) -> (r: Self)
        ensures
            r == *self,
    {
        IndexStatus {
            total_notes: self.total_notes,
            indexed_notes: self.indexed_notes,
            is_ready: self.is_ready,
            is_downloading_model: self.is_downloading_model,
            download_progress: self.download_progress,
            error: match &self.error {
                Some(e) => Some(e.clone()),
                None => None,
            },
        }
    }
}

/// The distinguishable failure conditions surfaced to callers; the
/// presentation layer renders each as a string code.
#[derive(Debug, Clone, Copy, PartialEq, Eq, Structural)]
pub enum ErrorCode {
    /// No database path has been configured.
    DbNotConfigured,
    /// The embedding model has not been loaded yet.
    ModelNotLoaded,
    /// The index is not ready to serve queries.
    IndexNotReady,
    /// The requested note id is absent.
    NoteNotFound,
    /// The note identifier is malformed.
    InvalidNoteId,
}

} // verus!
