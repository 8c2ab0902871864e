use joplin_smart_search::cache::NoteCache;
use joplin_smart_search::ranking::rank_hits;
use joplin_smart_search::state::AppState;
use joplin_smart_search::types::{ErrorCode, IndexResult, Note, NoteMetadata};

fn id_of(n: u8) -> String {
    format!("{:0>32}", format!("{:02x}", n))
}

fn note(n: u8, title: &str, ts: i64) -> Note {
    Note { id: id_of(n), title: title.to_string(), body: format!("body {}", n), updated_time: ts }
}

#[test]
fn default_state_is_idle_and_unconfigured() {
    let s = AppState::default();
    assert!(s.db_path.is_none());
    assert!(!s.pipeline_loaded);
    assert!(!s.index_present);
    assert!(!s.is_indexing);
    assert!(!s.is_delta_updating);
    assert!(!s.is_pipeline_loading);
    assert!(!s.index_status.is_ready);
    assert_eq!(s.index_status.total_notes, 0);
    assert_eq!(s.last_scan_timestamp, 0);
}

#[test]
fn second_concurrent_rebuild_is_refused_and_state_untouched() {
    let mut s = AppState::default();
    assert!(s.try_begin_full_rebuild());
    assert!(s.is_indexing);
    let before_total = s.index_status.total_notes;
    // The racing second caller loses and returns immediately.
    assert!(!s.try_begin_full_rebuild());
    assert!(s.is_indexing);
    assert_eq!(s.index_status.total_notes, before_total);
    s.end_full_rebuild();
    assert!(!s.is_indexing);
    assert!(s.try_begin_full_rebuild());
}

#[test]
fn delta_update_refused_while_rebuild_in_flight() {
    let mut s = AppState::default();
    assert!(s.try_begin_full_rebuild());
    assert!(!s.try_begin_delta_update());
    s.end_full_rebuild();
    assert!(s.try_begin_delta_update());
    assert!(!s.try_begin_delta_update());
    s.end_delta_update();
    assert!(s.try_begin_delta_update());
}

#[test]
fn pipeline_load_runs_at_most_once() {
    let mut s = AppState::default();
    assert!(s.try_begin_pipeline_load());
    assert!(!s.try_begin_pipeline_load());
    s.finish_pipeline_load(true, String::new());
    assert!(s.pipeline_loaded);
    assert!(!s.is_pipeline_loading);
    assert!(!s.try_begin_pipeline_load());
}

#[test]
fn failed_pipeline_load_records_error() {
    let mut s = AppState::default();
    assert!(s.try_begin_pipeline_load());
    s.finish_pipeline_load(false, "Failed to load embedding model".to_string());
    assert!(!s.pipeline_loaded);
    assert!(!s.is_pipeline_loading);
    assert_eq!(s.index_status.error.as_deref(), Some("Failed to load embedding model"));
}

#[test]
fn set_db_path_resets_readiness() {
    let mut s = AppState::default();
    s.index_status.is_ready = true;
    s.index_status.indexed_notes = 5;
    s.set_db_path("/tmp/notes.sqlite".to_string());
    assert_eq!(s.db_path.as_deref(), Some("/tmp/notes.sqlite"));
    assert!(!s.index_status.is_ready);
    assert_eq!(s.index_status.indexed_notes, 0);
}

#[test]
fn search_precheck_not_ready_wins_over_everything() {
    let mut s = AppState::default();
    s.pipeline_loaded = true;
    s.index_present = true;
    s.index_status.is_ready = false;
    assert_eq!(s.search_precheck(), Err(ErrorCode::IndexNotReady));
}

#[test]
fn search_precheck_distinguishes_missing_model_and_index() {
    let mut s = AppState::default();
    s.index_status.is_ready = true;
    assert_eq!(s.search_precheck(), Err(ErrorCode::ModelNotLoaded));
    s.pipeline_loaded = true;
    assert_eq!(s.search_precheck(), Err(ErrorCode::IndexNotReady));
    s.index_present = true;
    assert_eq!(s.search_precheck(), Ok(()));
}

#[test]
fn require_db_path_reports_configuration() {
    let mut s = AppState::default();
    assert_eq!(s.require_db_path(), Err(ErrorCode::DbNotConfigured));
    s.set_db_path("/data/db.sqlite".to_string());
    assert_eq!(s.require_db_path(), Ok("/data/db.sqlite".to_string()));
}

#[test]
fn tombstoned_note_disappears_from_search() {
    let mut s = AppState::default();
    s.note_cache.upsert(NoteMetadata { id: id_of(1), title: "one".into(), updated_time: 10 });
    s.note_cache.upsert(NoteMetadata { id: id_of(2), title: "two".into(), updated_time: 20 });
    s.apply_deleted_ids(&vec![id_of(1)]);
    assert!(s.deleted_note_ids.contains(&id_of(1)));
    assert!(s.note_cache.get(&id_of(1)).is_none());
    // The index still holds an embedding for note 1; search drops it.
    let hits = vec![
        IndexResult { note_id: id_of(1), score: 990 },
        IndexResult { note_id: id_of(2), score: 800 },
    ];
    let r = rank_hits(&hits, &s.note_cache, &s.deleted_note_ids);
    assert_eq!(r.len(), 1);
    assert_eq!(r[0].note.id, id_of(2));
}

#[test]
fn changed_note_is_untombstoned_and_searchable_again() {
    let mut s = AppState::default();
    s.note_cache.upsert(NoteMetadata { id: id_of(1), title: "one".into(), updated_time: 10 });
    s.apply_deleted_ids(&vec![id_of(1)]);
    assert!(s.deleted_note_ids.contains(&id_of(1)));
    // The same note reappears among changed notes: live again.
    s.apply_changed_notes(&vec![note(1, "one edited", 30)]);
    assert!(!s.deleted_note_ids.contains(&id_of(1)));
    let m = s.note_cache.get(&id_of(1)).expect("cache entry restored");
    assert_eq!(m.title, "one edited");
    assert_eq!(m.updated_time, 30);
    let hits = vec![IndexResult { note_id: id_of(1), score: 750 }];
    let r = rank_hits(&hits, &s.note_cache, &s.deleted_note_ids);
    assert_eq!(r.len(), 1);
    assert_eq!(r[0].note.id, id_of(1));
}

#[test]
fn changed_notes_upsert_metadata_last_occurrence_wins() {
    let mut s = AppState::default();
    s.apply_changed_notes(&vec![note(3, "first", 5), note(3, "second", 9)]);
    let m = s.note_cache.get(&id_of(3)).expect("entry present");
    assert_eq!(m.title, "second");
    assert_eq!(m.updated_time, 9);
}

#[test]
fn advance_scan_timestamp_subtracts_one_and_never_regresses() {
    let mut s = AppState::default();
    s.advance_scan_timestamp(100);
    assert_eq!(s.last_scan_timestamp, 99);
    // A smaller max never moves the boundary backwards.
    s.advance_scan_timestamp(50);
    assert_eq!(s.last_scan_timestamp, 99);
    s.advance_scan_timestamp(100);
    assert_eq!(s.last_scan_timestamp, 99);
    s.advance_scan_timestamp(101);
    assert_eq!(s.last_scan_timestamp, 100);
}

#[test]
fn advance_scan_timestamp_saturates_at_smallest_timestamp() {
    let mut s = AppState::default();
    s.advance_scan_timestamp(i64::MIN);
    assert_eq!(s.last_scan_timestamp, 0);
    s.last_scan_timestamp = i64::MIN;
    s.advance_scan_timestamp(i64::MIN);
    assert_eq!(s.last_scan_timestamp, i64::MIN);
}

#[test]
fn install_rebuilt_index_clears_tombstones_and_marks_ready() {
    let mut s = AppState::default();
    s.apply_deleted_ids(&vec![id_of(4)]);
    assert!(s.deleted_note_ids.contains(&id_of(4)));
    s.pipeline_loaded = true;
    let mut cache = NoteCache::new();
    cache.upsert(NoteMetadata { id: id_of(5), title: "five".into(), updated_time: 500 });
    s.install_rebuilt_index(cache, 500, 42_000);
    assert!(s.index_present);
    assert!(!s.deleted_note_ids.contains(&id_of(4)));
    assert_eq!(s.deleted_note_ids.len(), 0);
    assert_eq!(s.last_scan_timestamp, 500);
    assert_eq!(s.last_full_rebuild_ts, 42_000);
    assert!(s.index_status.is_ready);
    assert_eq!(s.index_status.download_progress, 1000);
    assert!(s.index_status.error.is_none());
}

#[test]
fn install_without_pipeline_keeps_not_ready() {
    let mut s = AppState::default();
    s.install_rebuilt_index(NoteCache::new(), 0, 7);
    assert!(!s.index_status.is_ready);
    assert!(s.index_present);
}

#[test]
fn adopt_loaded_index_counts_all_notes_but_waits_for_model() {
    let mut s = AppState::default();
    let mut cache = NoteCache::new();
    cache.upsert(NoteMetadata { id: id_of(6), title: "six".into(), updated_time: 60 });
    s.adopt_loaded_index(cache, 1, 60, 9_000);
    assert!(s.index_present);
    assert_eq!(s.index_status.total_notes, 1);
    assert_eq!(s.index_status.indexed_notes, 1);
    assert!(!s.index_status.is_ready);
    assert!(s.index_status.is_downloading_model);
    s.pipeline_loaded = true;
    s.confirm_snapshot_ready();
    assert!(s.index_status.is_ready);
    assert!(!s.index_status.is_downloading_model);
}

#[test]
fn refresh_counts_follows_cache_size() {
    let mut s = AppState::default();
    s.note_cache.upsert(NoteMetadata { id: id_of(1), title: "a".into(), updated_time: 1 });
    s.note_cache.upsert(NoteMetadata { id: id_of(2), title: "b".into(), updated_time: 2 });
    s.refresh_counts();
    assert_eq!(s.index_status.total_notes, 2);
    assert_eq!(s.index_status.indexed_notes, 2);
}
