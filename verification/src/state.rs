//! The shared-state coordinator: configuration, readiness flags, the
//! metadata cache, the tombstone set, scan timestamps, and the
//! mutual-exclusion flags that keep full rebuilds and delta updates from
//! overlapping.
//!
//! The surrounding runtime holds this state under its coarse lock and
//! calls one short operation per critical section; the embedding pipeline
//! and the vector index live outside this model and are represented by
//! the `pipeline_loaded` and `index_present` booleans.

use vstd::prelude::*;
use crate::cache::{has_id, NoteCache};
use crate::tombstones::{set_has, TombstoneSet};
use crate::types::{ErrorCode, IndexStatus, Note, NoteMetadata, SCORE_UNIT};

verus! {

/// The metadata projection of a note.
pub open spec fn note_meta(n: Note) -> NoteMetadata {
    NoteMetadata { id: n.id, title: n.title, updated_time: n.updated_time }
}

/// Some note in `notes` carries the id `id`.
pub open spec fn note_listed(notes: Seq<Note>, id: Seq<char>) -> bool {
    exists|i: int| 0 <= i < notes.len() && #[trigger] notes[i].id@ == id
}

/// All runtime state shared across operations.
pub struct AppState {
    /// Path to the external note database, set at most once per session.
    pub db_path: Option<String>,
    /// Whether the embedding pipeline handle has been loaded.
    pub pipeline_loaded: bool,
    /// Whether a vector index handle is installed.
    pub index_present: bool,
    /// In-memory note metadata cache.
    pub note_cache: NoteCache,
    /// Updated-time of the most recently indexed note (Unix ms).
    pub last_scan_timestamp: i64,
    /// Ids of notes soft-deleted since the last full rebuild.
    pub deleted_note_ids: TombstoneSet,
    /// Monotonic-clock instant (ms) of the last full rebuild.
    pub last_full_rebuild_ts: i64,
    /// Status reported to the presentation layer.
    pub index_status: IndexStatus,
    /// True while a full index build runs; prevents concurrent rebuilds.
    pub is_indexing: bool,
    /// True while the embedding model is loading; prevents duplicate loads.
    pub is_pipeline_loading: bool,
    /// True while a delta update runs; prevents overlapping delta passes.
    pub is_delta_updating: bool,
}

impl AppState {
    /// Well-formed: cache and tombstones are duplicate-free, and a
    /// tombstoned id is never also cached.
    pub open spec fn wf(&self) -> bool {
        &&& self.note_cache.wf()
        &&& self.deleted_note_ids.wf()
        &&& forall|id: Seq<char>|
            #[trigger] set_has(self.deleted_note_ids@, id) ==> !has_id(self.note_cache@, id)
    }
}

impl Default for AppState {
    /// The state a session starts from: nothing configured, nothing
    /// loaded, empty cache, no tombstones, not ready.
    fn default() -> (r: Self)
        ensures
            r.wf(),
            r.db_path is None,
            !r.pipeline_loaded,
            !r.index_present,
            r.note_cache@ == Seq::<NoteMetadata>::empty(),
            r.last_scan_timestamp == 0,
            r.deleted_note_ids@ == Seq::<String>::empty(),
            r.last_full_rebuild_ts == 0,
            r.index_status.total_notes == 0,
            r.index_status.indexed_notes == 0,
            !r.index_status.is_ready,
            !r.index_status.is_downloading_model,
            r.index_status.download_progress == 0,
            r.index_status.error is None,
            !r.is_indexing,
            !r.is_pipeline_loading,
            !r.is_delta_updating,
    {
        AppState {
            db_path: None,
            pipeline_loaded: false,
            index_present: false,
            note_cache: NoteCache::new(),
            last_scan_timestamp: 0,
            deleted_note_ids: TombstoneSet::new(),
            last_full_rebuild_ts: 0,
            index_status: IndexStatus {
                total_notes: 0,
                indexed_notes: 0,
                is_ready: false,
                is_downloading_model: false,
                download_progress: 0,
                error: None,
            },
            is_indexing: false,
            is_pipeline_loading: false,
            is_delta_updating: false,
        }
    }
}

impl AppState {
    /// Configure the database path and reset readiness, as the explicit
    /// configuration request does before it triggers a full rebuild.
    pub fn set_db_path(&mut self, path: String)
        ensures
            *final(self) == (AppState {
                db_path: Some(path),
                index_status: (IndexStatus {
                    is_ready: false,
                    indexed_notes: 0,
                    ..old(self).index_status
                }),
                ..*old(self)
            }),
    {
        self.db_path = Some(path);
        self.index_status.is_ready = false;
        self.index_status.indexed_notes = 0;
    }

    /// Atomic check-and-set guarding full rebuilds: at most one runs at a
    /// time. A caller that loses the race gets `false` and the state is
    /// untouched.
    pub fn try_begin_full_rebuild(&mut self) -> (granted: bool)
        ensures
            old(self).is_indexing ==> !granted && *final(self) == *old(self),
            !old(self).is_indexing ==> granted && *final(self) == (AppState {
                is_indexing: true,
                ..*old(self)
            }),
    {
        if self.is_indexing {
            false
        } else {
            self.is_indexing = true;
            true
        }
    }

    /// Mark the full rebuild finished, releasing the guard.
    pub fn end_full_rebuild(&mut self)
        ensures
            *final(self) == (AppState { is_indexing: false, ..*old(self) }),
    {
        self.is_indexing = false;
    }

    /// Atomic check-and-set guarding delta updates: at most one runs at a
    /// time, and none starts while a full rebuild is in flight.
    pub fn try_begin_delta_update(&mut self) -> (granted: bool)
        ensures
            (old(self).is_delta_updating || old(self).is_indexing) ==> !granted && *final(self)
                == *old(self),
            !(old(self).is_delta_updating || old(self).is_indexing) ==> granted && *final(self)
                == (AppState { is_delta_updating: true, ..*old(self) }),
    {
        if self.is_delta_updating || self.is_indexing {
            false
        } else {
            self.is_delta_updating = true;
            true
        }
    }

    /// Mark the delta update finished, releasing the guard.
    pub fn end_delta_update(&mut self)
        ensures
            *final(self) == (AppState { is_delta_updating: false, ..*old(self) }),
    {
        self.is_delta_updating = false;
    }

    /// Atomic check-and-set guarding the one-time pipeline load: refused
    /// while the pipeline is already loaded or a load is in flight.
    pub fn try_begin_pipeline_load(&mut self) -> (granted: bool)
        ensures
            (old(self).pipeline_loaded || old(self).is_pipeline_loading) ==> !granted && *final(self)
                == *old(self),
            !(old(self).pipeline_loaded || old(self).is_pipeline_loading) ==> granted && *final(self)
                == (AppState { is_pipeline_loading: true, ..*old(self) }),
    {
        if self.pipeline_loaded || self.is_pipeline_loading {
            false
        } else {
            self.is_pipeline_loading = true;
            true
        }
    }

    /// Record the outcome of a pipeline load: on success the pipeline is
    /// available to every later operation; on failure the status carries
    /// the error.
    pub fn finish_pipeline_load(&mut self, ok: bool, error: String)
        ensures
            ok ==> *final(self) == (AppState {
                is_pipeline_loading: false,
                pipeline_loaded: true,
                ..*old(self)
            }),
            !ok ==> *final(self) == (AppState {
                is_pipeline_loading: false,
                index_status: (IndexStatus { error: Some(error), ..old(self).index_status }),
                ..*old(self)
            }),
    {
        self.is_pipeline_loading = false;
        if ok {
            self.pipeline_loaded = true;
        } else {
            self.index_status.error = Some(error);
        }
    }

    /// Flip the model-download indicator around a pipeline load.
    pub fn set_downloading_model(&mut self, downloading: bool)
        ensures
            *final(self) == (AppState {
                index_status: (IndexStatus {
                    is_downloading_model: downloading,
                    ..old(self).index_status
                }),
                ..*old(self)
            }),
    {
        self.index_status.is_downloading_model = downloading;
    }

    /// Record a fatal build error; prior state (cache, index, tombstones)
    /// is left in place.
    pub fn record_build_error(&mut self, msg: String)
        ensures
            *final(self) == (AppState {
                index_status: (IndexStatus { error: Some(msg), ..old(self).index_status }),
                ..*old(self)
            }),
    {
        self.index_status.error = Some(msg);
    }

    /// Publish per-batch progress during a full build: the count of
    /// notes processed so far and the progress ratio in thousandths.
    pub fn record_batch_progress(&mut self, indexed: usize, progress: u32)
        ensures
            *final(self) == (AppState {
                index_status: (IndexStatus {
                    indexed_notes: indexed,
                    download_progress: progress,
                    ..old(self).index_status
                }),
                ..*old(self)
            }),
    {
        self.index_status.indexed_notes = indexed;
        self.index_status.download_progress = progress;
    }

    /// Publish the total note count at the start of a full build.
    pub fn set_total_notes(&mut self, total: usize)
        ensures
            *final(self) == (AppState {
                index_status: (IndexStatus { total_notes: total, ..old(self).index_status }),
                ..*old(self)
            }),
    {
        self.index_status.total_notes = total;
    }

    /// Whether a search may proceed, with the original precedence of
    /// refusals: not ready, then model missing, then index missing.
    pub fn search_precheck(&self) -> (r: Result<(), ErrorCode>)
        ensures
            !self.index_status.is_ready ==> r == Err::<(), ErrorCode>(ErrorCode::IndexNotReady),
            self.index_status.is_ready && !self.pipeline_loaded ==> r == Err::<(), ErrorCode>(
                ErrorCode::ModelNotLoaded,
            ),
            self.index_status.is_ready && self.pipeline_loaded && !self.index_present ==> r
                == Err::<(), ErrorCode>(ErrorCode::IndexNotReady),
            r is Ok <==> (self.index_status.is_ready && self.pipeline_loaded
                && self.index_present),
    {
        if !self.index_status.is_ready {
            Err(ErrorCode::IndexNotReady)
        } else if !self.pipeline_loaded {
            Err(ErrorCode::ModelNotLoaded)
        } else if !self.index_present {
            Err(ErrorCode::IndexNotReady)
        } else {
            Ok(())
        }
    }

    /// The database path, owed to any operation that reads the store;
    /// absent exactly when no path was configured.
    pub fn require_db_path(&self) -> (r: Result<String, ErrorCode>)
        ensures
            r is Ok <==> self.db_path is Some,
            r is Ok ==> r->Ok_0@ == self.db_path->0@,
            r is Err ==> r == Err::<String, ErrorCode>(ErrorCode::DbNotConfigured),
    {
        match &self.db_path {
            Some(p) => Ok(p.clone()),
            None => Err(ErrorCode::DbNotConfigured),
        }
    }

    /// Tombstone every listed id and drop it from the cache: the delta
    /// pass applies the store's soft-deletions. Ids not listed keep both
    /// their tombstone status and their cache entry.
    pub fn apply_deleted_ids(&mut self, ids: &Vec<String>)
        requires
            old(self).wf(),
        ensures
            final(self).wf(),
            forall|id: Seq<char>|
                #[trigger] set_has(final(self).deleted_note_ids@, id) <==> (set_has(
                    old(self).deleted_note_ids@,
                    id,
                ) || set_has(ids@, id)),
            forall|x: NoteMetadata|
                #[trigger] final(self).note_cache@.contains(x) <==> (old(self).note_cache@.contains(
                    x,
                ) && !set_has(ids@, x.id@)),
            *final(self) == (AppState {
                note_cache: final(self).note_cache,
                deleted_note_ids: final(self).deleted_note_ids,
                ..*old(self)
            }),
    {
        let n = ids.len();
        for i in 0..n
            invariant
                self.wf(),
                n == ids@.len(),
                forall|id: Seq<char>|
                    #[trigger] set_has(self.deleted_note_ids@, id) <==> (set_has(
                        old(self).deleted_note_ids@,
                        id,
                    ) || set_has(ids@.take(i as int), id)),
                forall|x: NoteMetadata|
                    #[trigger] self.note_cache@.contains(x) <==> (old(self).note_cache@.contains(x)
                        && !set_has(ids@.take(i as int), x.id@)),
                *self == (AppState {
                    note_cache: self.note_cache,
                    deleted_note_ids: self.deleted_note_ids,
                    ..*old(self)
                }),
        {
            self.deleted_note_ids.insert(ids[i].as_str());
            self.note_cache.remove_id(ids[i].as_str());
            proof {
                let idv = ids@[i as int]@;
                assert(ids@.take(i + 1).drop_last() == ids@.take(i as int));
                assert(ids@.take(i + 1).last()@ == idv);
                assert forall|id: Seq<char>| #[trigger] set_has(ids@.take(i + 1), id) <==> (set_has(
                    ids@.take(i as int),
                    id,
                ) || id == idv) by {
                    let t1 = ids@.take(i + 1);
                    if set_has(t1, id) {
                        let k = choose|k: int| 0 <= k < t1.len() && t1[k]@ == id;
                        if k < i {
                            assert(ids@.take(i as int)[k]@ == id);
                        }
                    }
                    if set_has(ids@.take(i as int), id) {
                        let k = choose|k: int|
                            0 <= k < ids@.take(i as int).len() && ids@.take(i as int)[k]@ == id;
                        assert(t1[k]@ == id);
                    }
                    if id == idv {
                        assert(t1[i as int]@ == id);
                    }
                }
                assert forall|id: Seq<char>|
                    #[trigger] set_has(self.deleted_note_ids@, id) implies !has_id(
                    self.note_cache@,
                    id,
                ) by {
                    if has_id(self.note_cache@, id) {
                        let k = choose|k: int|
                            0 <= k < self.note_cache@.len() && self.note_cache@[k].id@ == id;
                        assert(self.note_cache@.contains(self.note_cache@[k]));
                    }
                }
            }
        }
        proof {
            assert(ids@.take(n as int) == ids@);
        }
    }

    /// Upsert every changed note's metadata and clear its tombstone: a
    /// note reappearing among changed notes is live again. Other ids keep
    /// their tombstone status and cache entry; when one id occurs several
    /// times, the last occurrence wins.
    pub fn apply_changed_notes(&mut self, notes: &Vec<Note>)
        requires
            old(self).wf(),
        ensures
            final(self).wf(),
            forall|id: Seq<char>|
                #[trigger] set_has(final(self).deleted_note_ids@, id) <==> (set_has(
                    old(self).deleted_note_ids@,
                    id,
                ) && !note_listed(notes@, id)),
            forall|k: int| 0 <= k < notes@.len() ==> has_id(final(self).note_cache@, notes@[k].id@),
            forall|k: int|
                0 <= k < notes@.len() && (forall|l: int|
                    k < l < notes@.len() ==> notes@[l].id@ != notes@[k].id@)
                    ==> #[trigger] final(self).note_cache@.contains(note_meta(notes@[k])),
            forall|x: NoteMetadata|
                old(self).note_cache@.contains(x) && !note_listed(notes@, x.id@)
                    ==> #[trigger] final(self).note_cache@.contains(x),
            forall|x: NoteMetadata|
                #[trigger] final(self).note_cache@.contains(x) ==> ((old(
                    self,
                ).note_cache@.contains(x) && !note_listed(notes@, x.id@)) || exists|k: int|
                    0 <= k < notes@.len() && x == note_meta(#[trigger] notes@[k])),
            *final(self) == (AppState {
                note_cache: final(self).note_cache,
                deleted_note_ids: final(self).deleted_note_ids,
                ..*old(self)
            }),
    {
        let n = notes.len();
        for i in 0..n
            invariant
                self.wf(),
                n == notes@.len(),
                forall|id: Seq<char>|
                    #[trigger] set_has(self.deleted_note_ids@, id) <==> (set_has(
                        old(self).deleted_note_ids@,
                        id,
                    ) && !note_listed(notes@.take(i as int), id)),
                forall|k: int| 0 <= k < i ==> has_id(self.note_cache@, notes@[k].id@),
                forall|k: int|
                    0 <= k < i && (forall|l: int| k < l < i ==> notes@[l].id@ != notes@[k].id@)
                        ==> #[trigger] self.note_cache@.contains(note_meta(notes@[k])),
                forall|x: NoteMetadata|
                    old(self).note_cache@.contains(x) && !note_listed(notes@.take(i as int), x.id@)
                        ==> #[trigger] self.note_cache@.contains(x),
                forall|x: NoteMetadata|
                    #[trigger] self.note_cache@.contains(x) ==> ((old(self).note_cache@.contains(x)
                        && !note_listed(notes@.take(i as int), x.id@)) || exists|k: int|
                        0 <= k < i && x == note_meta(#[trigger] notes@[k])),
                *self == (AppState {
                    note_cache: self.note_cache,
                    deleted_note_ids: self.deleted_note_ids,
                    ..*old(self)
                }),
        {
            let note = &notes[i];
            let meta = NoteMetadata {
                id: note.id.clone(),
                title: note.title.clone(),
                updated_time: note.updated_time,
            };
            let ghost metav = meta;
            let ghost pre_c = self.note_cache@;
            proof {
                assert(meta == note_meta(notes@[i as int]));
            }
            self.deleted_note_ids.remove(note.id.as_str());
            self.note_cache.upsert(meta);
            proof {
                let idv = notes@[i as int].id@;
                assert forall|id: Seq<char>| #[trigger] note_listed(notes@.take(i + 1), id) <==> (
                note_listed(notes@.take(i as int), id) || id == idv) by {
                    let t1 = notes@.take(i + 1);
                    if note_listed(t1, id) {
                        let k = choose|k: int| 0 <= k < t1.len() && t1[k].id@ == id;
                        if k < i {
                            assert(notes@.take(i as int)[k].id@ == id);
                        }
                    }
                    if note_listed(notes@.take(i as int), id) {
                        let k = choose|k: int|
                            0 <= k < notes@.take(i as int).len() && notes@.take(i as int)[k].id@
                                == id;
                        assert(t1[k].id@ == id);
                    }
                    if id == idv {
                        assert(t1[i as int].id@ == id);
                    }
                }
                assert forall|id: Seq<char>|
                    #[trigger] set_has(self.deleted_note_ids@, id) implies !has_id(
                    self.note_cache@,
                    id,
                ) by {
                    if has_id(self.note_cache@, id) {
                        let k = choose|k: int|
                            0 <= k < self.note_cache@.len() && self.note_cache@[k].id@ == id;
                        assert(self.note_cache@.contains(self.note_cache@[k]));
                    }
                }
                assert forall|k: int|
                    0 <= k < i + 1 && (forall|l: int|
                        k < l < i + 1 ==> notes@[l].id@ != notes@[k].id@)
                        implies #[trigger] self.note_cache@.contains(note_meta(notes@[k])) by {
                    if k < i {
                        assert(notes@[k].id@ != idv);
                    }
                }
                assert forall|k: int| 0 <= k < i + 1 implies has_id(
                    self.note_cache@,
                    notes@[k].id@,
                ) by {
                    if notes@[k].id@ == idv {
                        assert(has_id(self.note_cache@, metav.id@));
                    } else {
                        let j = choose|j: int| 0 <= j < pre_c.len() && pre_c[j].id@ == notes@[k].id@;
                        let x = pre_c[j];
                        assert(pre_c.contains(x));
                        assert(self.note_cache@.contains(x));
                        let k2 = choose|k2: int|
                            0 <= k2 < self.note_cache@.len() && self.note_cache@[k2] == x;
                        assert(self.note_cache@[k2].id@ == notes@[k].id@);
                    }
                }
            }
        }
        proof {
            assert(notes@.take(n as int) == notes@);
        }
    }

    /// Install the product of a full rebuild: the fresh cache, a new scan
    /// boundary, an empty tombstone set, the rebuild instant, and a
    /// status that is ready exactly when the pipeline is loaded (a build
    /// without a model keeps the previous readiness).
    pub fn install_rebuilt_index(&mut self, cache: NoteCache, max_ts: i64, now_ms: i64)
        requires
            cache.wf(),
        ensures
            final(self).wf(),
            *final(self) == (AppState {
                index_present: true,
                note_cache: cache,
                last_scan_timestamp: max_ts,
                deleted_note_ids: final(self).deleted_note_ids,
                last_full_rebuild_ts: now_ms,
                index_status: (IndexStatus {
                    is_ready: old(self).index_status.is_ready || old(self).pipeline_loaded,
                    download_progress: SCORE_UNIT,
                    error: None,
                    ..old(self).index_status
                }),
                ..*old(self)
            }),
            final(self).deleted_note_ids@ == Seq::<String>::empty(),
    {
        self.index_present = true;
        self.note_cache = cache;
        self.last_scan_timestamp = max_ts;
        self.deleted_note_ids.clear();
        self.last_full_rebuild_ts = now_ms;
        if self.pipeline_loaded {
            self.index_status.is_ready = true;
        }
        self.index_status.download_progress = SCORE_UNIT;
        self.index_status.error = None;
        proof {
            assert forall|id: Seq<char>|
                #[trigger] set_has(self.deleted_note_ids@, id) implies !has_id(
                self.note_cache@,
                id,
            ) by {}
        }
    }

    /// Adopt a persisted index snapshot: the cache rebuilt from all live
    /// notes, the scan boundary at their newest timestamp, tombstones
    /// cleared, and a status that counts every note as indexed but is not
    /// yet ready (the model must still be confirmed loaded).
    pub fn adopt_loaded_index(&mut self, cache: NoteCache, total: usize, max_ts: i64, now_ms: i64)
        requires
            cache.wf(),
        ensures
            final(self).wf(),
            *final(self) == (AppState {
                index_present: true,
                note_cache: cache,
                last_scan_timestamp: max_ts,
                deleted_note_ids: final(self).deleted_note_ids,
                last_full_rebuild_ts: now_ms,
                index_status: (IndexStatus {
                    total_notes: total,
                    indexed_notes: total,
                    is_ready: false,
                    is_downloading_model: true,
                    download_progress: SCORE_UNIT,
                    error: old(self).index_status.error,
                }),
                ..*old(self)
            }),
            final(self).deleted_note_ids@ == Seq::<String>::empty(),
    {
        self.index_present = true;
        self.note_cache = cache;
        self.last_scan_timestamp = max_ts;
        self.deleted_note_ids.clear();
        self.last_full_rebuild_ts = now_ms;
        self.index_status.total_notes = total;
        self.index_status.indexed_notes = total;
        self.index_status.is_ready = false;
        self.index_status.is_downloading_model = true;
        self.index_status.download_progress = SCORE_UNIT;
        proof {
            assert forall|id: Seq<char>|
                #[trigger] set_has(self.deleted_note_ids@, id) implies !has_id(
                self.note_cache@,
                id,
            ) by {}
        }
    }

    /// Confirm readiness after adopting a snapshot: the download
    /// indicator is dropped and the state is ready exactly when the
    /// pipeline loaded.
    pub fn confirm_snapshot_ready(&mut self)
        ensures
            *final(self) == (AppState {
                index_status: (IndexStatus {
                    is_downloading_model: false,
                    is_ready: old(self).index_status.is_ready || old(self).pipeline_loaded,
                    ..old(self).index_status
                }),
                ..*old(self)
            }),
    {
        self.index_status.is_downloading_model = false;
        if self.pipeline_loaded {
            self.index_status.is_ready = true;
        }
    }

    /// Advance the scan boundary to one time unit before the newest
    /// processed note, never moving backwards: the boundary is
    /// monotonically non-decreasing, and the subtracted unit forces
    /// boundary-timestamp notes to be re-examined on the next pass.
    pub fn advance_scan_timestamp(&mut self, max_ts: i64)
        ensures
            *final(self) == (AppState {
                last_scan_timestamp: final(self).last_scan_timestamp,
                ..*old(self)
            }),
            final(self).last_scan_timestamp == if old(self).last_scan_timestamp >= spec_sub_one(
                max_ts,
            ) {
                old(self).last_scan_timestamp
            } else {
                spec_sub_one(max_ts)
            },
            final(self).last_scan_timestamp >= old(self).last_scan_timestamp,
    {
        let bumped = if max_ts > i64::MIN {
            max_ts - 1
        } else {
            i64::MIN
        };
        if bumped > self.last_scan_timestamp {
            self.last_scan_timestamp = bumped;
        }
    }

    /// Refresh the note counters from the cache after a delta pass.
    pub fn refresh_counts(&mut self)
        ensures
            *final(self) == (AppState {
                index_status: (IndexStatus {
                    indexed_notes: old(self).note_cache@.len() as usize,
                    total_notes: old(self).note_cache@.len() as usize,
                    ..old(self).index_status
                }),
                ..*old(self)
            }),
    {
        let n = self.note_cache.len();
        self.index_status.indexed_notes = n;
        self.index_status.total_notes = n;
    }
}

/// `t - 1`, saturating at the smallest timestamp.
pub open spec fn spec_sub_one(t: i64) -> i64 {
    if t > i64::MIN {
        (t - 1) as i64
    } else {
        i64::MIN
    }
}

} // verus!
