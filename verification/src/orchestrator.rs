//! Decision and computation steps of the indexing orchestrator: index
//! sizing, cache construction from a note read, scan-boundary and
//! progress arithmetic, score conversion, and the periodic-rebuild
//! decision. The surrounding runtime performs the store reads, the
//! embedding calls and the index operations, and feeds their results
//! through these steps.

use vstd::prelude::*;
use vstd::arithmetic::div_mod::{lemma_div_is_ordered, lemma_div_multiples_vanish};
use crate::cache::{has_id, NoteCache};
use crate::state::note_meta;
use crate::types::{Note, NoteMetadata, SCORE_UNIT};

verus! {

/// Embedding dimension of the sentence-embedding model.
pub const DIMENSIONS: usize = 384;

/// Connections per node in the vector index graph.
pub const HNSW_M: usize = 16;

/// Build-time quality parameter of the vector index.
pub const HNSW_EF_CONSTRUCTION: usize = 200;

/// Search-time recall parameter of the vector index.
pub const HNSW_EF_SEARCH: usize = 50;

/// Notes are embedded in batches of this size during a full build.
pub const BATCH_SIZE: usize = 64;

/// The capacity floor provisioned for a new index.
pub const MIN_CAPACITY: usize = 2000;

/// A delta pass schedules a background full rebuild once this much time
/// (5 minutes, in ms) has passed since the last one.
pub const REBUILD_INTERVAL_MS: i64 = 300000;

/// Capacity provisioned for a rebuild: at least twice the known note
/// count, with a fixed floor, so delta insertions do not hit capacity
/// before the next full rebuild.
pub fn index_capacity(total: usize) -> (r: usize)
    requires
        total <= usize::MAX / 2,
    ensures
        r == if 2 * total > MIN_CAPACITY {
            2 * (total as int)
        } else {
            MIN_CAPACITY as int
        },
        r >= 2 * total,
        r >= MIN_CAPACITY,
{
    let doubled = total * 2;
    if doubled > MIN_CAPACITY {
        doubled
    } else {
        MIN_CAPACITY
    }
}

/// The largest `updated_time` among `notes`, floored at zero.
pub open spec fn spec_max_ts(notes: Seq<Note>) -> i64
    decreases notes.len(),
{
    if notes.len() == 0 {
        0
    } else {
        let m = spec_max_ts(notes.drop_last());
        if notes.last().updated_time > m {
            notes.last().updated_time
        } else {
            m
        }
    }
}

/// The newest `updated_time` among the notes, floored at zero; the scan
/// boundary after a build derives from it.
pub fn max_updated_time(notes: &Vec<Note>) -> (r: i64)
    ensures
        r == spec_max_ts(notes@),
{
    let mut m: i64 = 0;
    let n = notes.len();
    for i in 0..n
        invariant
            n == notes@.len(),
            m == spec_max_ts(notes@.take(i as int)),
    {
        proof {
            assert(notes@.take(i + 1).drop_last() =~= notes@.take(i as int));
            assert(notes@.take(i + 1).last() == notes@[i as int]);
        }
        if notes[i].updated_time > m {
            m = notes[i].updated_time;
        }
    }
    proof {
        assert(notes@.take(n as int) =~= notes@);
    }
    m
}

/// Build the metadata cache for a full set of live notes: one entry per
/// id; when an id occurs several times the last occurrence wins, as an
/// in-order upsert gives.
pub fn cache_from_notes(notes: &Vec<Note>) -> (r: NoteCache)
    ensures
        r.wf(),
        forall|k: int| 0 <= k < notes@.len() ==> has_id(r@, notes@[k].id@),
        forall|k: int|
            0 <= k < notes@.len() && (forall|l: int|
                k < l < notes@.len() ==> notes@[l].id@ != notes@[k].id@) ==> #[trigger] r@.contains(
                note_meta(notes@[k]),
            ),
        forall|x: NoteMetadata|
            #[trigger] r@.contains(x) ==> exists|k: int|
                0 <= k < notes@.len() && x == note_meta(#[trigger] notes@[k]),
{
    let mut c = NoteCache::new();
    let n = notes.len();
    for i in 0..n
        invariant
            c.wf(),
            n == notes@.len(),
            forall|k: int| 0 <= k < i ==> has_id(c@, notes@[k].id@),
            forall|k: int|
                0 <= k < i && (forall|l: int| k < l < i ==> notes@[l].id@ != notes@[k].id@)
                    ==> #[trigger] c@.contains(note_meta(notes@[k])),
            forall|x: NoteMetadata|
                #[trigger] c@.contains(x) ==> exists|k: int|
                    0 <= k < i && x == note_meta(#[trigger] notes@[k]),
    {
        let note = &notes[i];
        let meta = NoteMetadata {
            id: note.id.clone(),
            title: note.title.clone(),
            updated_time: note.updated_time,
        };
        let ghost metav = meta;
        let ghost pre_c = c@;
        proof {
            assert(meta == note_meta(notes@[i as int]));
        }
        c.upsert(meta);
        proof {
            let idv = notes@[i as int].id@;
            assert forall|k: int|
                0 <= k < i + 1 && (forall|l: int| k < l < i + 1 ==> notes@[l].id@ != notes@[k].id@)
                    implies #[trigger] c@.contains(note_meta(notes@[k])) by {
                if k < i {
                    assert(notes@[k].id@ != idv);
                }
            }
            assert forall|k: int| 0 <= k < i + 1 implies has_id(c@, notes@[k].id@) by {
                if notes@[k].id@ == idv {
                    assert(has_id(c@, metav.id@));
                } else {
                    let j = choose|j: int| 0 <= j < pre_c.len() && pre_c[j].id@ == notes@[k].id@;
                    let x = pre_c[j];
                    assert(pre_c.contains(x));
                    assert(c@.contains(x));
                    let k2 = choose|k2: int| 0 <= k2 < c@.len() && c@[k2] == x;
                    assert(c@[k2].id@ == notes@[k].id@);
                }
            }
        }
    }
    c
}

/// Indexing progress as a ratio in thousandths.
pub open spec fn spec_progress(indexed: int, total: int) -> int {
    (indexed * SCORE_UNIT) / (if total == 0 {
        1int
    } else {
        total
    })
}

/// Progress published after each batch: indexed over total, in
/// thousandths, never past one whole unit.
pub fn progress_thousandths(indexed: usize, total: usize) -> (r: u32)
    requires
        indexed <= total,
    ensures
        r == spec_progress(indexed as int, total as int),
        r <= SCORE_UNIT,
{
    if total == 0 {
        return 0;
    }
    let num: u128 = (indexed as u128) * (SCORE_UNIT as u128);
    let q: u128 = num / (total as u128);
    proof {
        let ind = indexed as int;
        let tot = total as int;
        assert(ind * SCORE_UNIT <= tot * SCORE_UNIT) by (nonlinear_arith)
            requires
                ind <= tot,
        ;
        lemma_div_is_ordered(ind * SCORE_UNIT, tot * SCORE_UNIT, tot);
        lemma_div_multiples_vanish(SCORE_UNIT as int, tot);
    }
    q as u32
}

/// The similarity score for a native cosine distance in thousandths:
/// one whole unit minus the distance, clamped to [0, SCORE_UNIT].
pub open spec fn spec_score_from_distance(distance: i64) -> u32 {
    if distance <= 0 {
        SCORE_UNIT
    } else if distance >= SCORE_UNIT {
        0
    } else {
        (SCORE_UNIT - distance) as u32
    }
}

/// Convert the index's native cosine distance (lower is more similar,
/// in thousandths) to a similarity score in thousandths.
pub fn score_from_distance(distance: i64) -> (r: u32)
    ensures
        r == spec_score_from_distance(distance),
        r <= SCORE_UNIT,
{
    if distance <= 0 {
        SCORE_UNIT
    } else if distance >= SCORE_UNIT as i64 {
        0
    } else {
        (SCORE_UNIT as i64 - distance) as u32
    }
}

/// Whether a delta pass should schedule a background full rebuild:
/// exactly when the rebuild interval has elapsed since the last one.
/// Instants come from a monotonic clock, so `now_ms` is not before
/// `last_rebuild_ms`.
pub fn should_schedule_rebuild(last_rebuild_ms: i64, now_ms: i64) -> (r: bool)
    requires
        0 <= last_rebuild_ms <= now_ms,
    ensures
        r == (now_ms - last_rebuild_ms >= REBUILD_INTERVAL_MS),
{
    now_ms - last_rebuild_ms >= REBUILD_INTERVAL_MS
}

} // verus!
