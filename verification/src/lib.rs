//! Incremental semantic-search engine for a note collection: identifier
//! validation, the coordinator state model, search-result ranking, the
//! indexing orchestrator's decision steps, and the change-watcher debounce
//! state machine.

pub mod cache;
pub mod ids;
pub mod orchestrator;
pub mod ranking;
pub mod service;
pub mod state;
pub mod text;
pub mod tombstones;
pub mod types;
pub mod watcher;
