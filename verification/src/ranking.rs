//! The query-time ranking path: raw index hits are filtered against the
//! tombstone set, joined with the metadata cache, held to the similarity
//! floor, deduplicated by note id keeping the first (and, for
//! score-sorted input, highest-scoring) occurrence, and capped at
//! `MAX_RESULTS`.

use vstd::prelude::*;
use crate::cache::{has_id, NoteCache};
use crate::tombstones::{set_has, TombstoneSet};
use crate::types::{IndexResult, NoteMetadata, SearchResult, MAX_RESULTS, MIN_SCORE};

verus! {

/// A raw hit survives filtering: its note is not tombstoned, it has a
/// live cache entry, and its score reaches the similarity floor.
pub open spec fn passes(cache: Seq<NoteMetadata>, tombs: Seq<String>, h: IndexResult) -> bool {
    &&& !set_has(tombs, h.note_id@)
    &&& has_id(cache, h.note_id@)
    &&& h.score >= MIN_SCORE
}

/// Some hit in `s` carries the id `id`.
pub open spec fn hits_have(s: Seq<IndexResult>, id: Seq<char>) -> bool {
    exists|j: int| 0 <= j < s.len() && #[trigger] s[j].note_id@ == id
}

/// The hits that survive filtering and first-occurrence deduplication,
/// in order. `seen` holds the ids already taken: a hit is kept iff it
/// passes and its id is neither in `seen` nor taken by an earlier kept
/// hit.
pub open spec fn survivors(
    hits: Seq<IndexResult>,
    cache: Seq<NoteMetadata>,
    tombs: Seq<String>,
    seen: Set<Seq<char>>,
) -> Seq<IndexResult>
    decreases hits.len(),
{
    if hits.len() == 0 {
        Seq::empty()
    } else {
        let h = hits[0];
        let rest = hits.drop_first();
        if passes(cache, tombs, h) && !seen.contains(h.note_id@) {
            seq![h] + survivors(rest, cache, tombs, seen.insert(h.note_id@))
        } else {
            survivors(rest, cache, tombs, seen)
        }
    }
}

/// The ranked hit list: the survivors, capped at `MAX_RESULTS`.
pub open spec fn ranked(
    hits: Seq<IndexResult>,
    cache: Seq<NoteMetadata>,
    tombs: Seq<String>,
) -> Seq<IndexResult> {
    let s = survivors(hits, cache, tombs, Set::empty());
    if s.len() <= MAX_RESULTS {
        s
    } else {
        s.take(MAX_RESULTS as int)
    }
}

/// `rs` renders the hit list `hs`: same length and order, each result
/// carrying the hit's score and the cache entry for the hit's id.
pub open spec fn results_match(
    rs: Seq<SearchResult>,
    hs: Seq<IndexResult>,
    cache: Seq<NoteMetadata>,
) -> bool {
    &&& rs.len() == hs.len()
    &&& forall|k: int|
        0 <= k < rs.len() ==> {
            &&& (#[trigger] rs[k]).score == hs[k].score
            &&& rs[k].note.id@ == hs[k].note_id@
            &&& cache.contains(rs[k].note)
        }
}

/// Appending one hit extends the survivor list by that hit exactly when
/// it passes and its id was neither seen nor already taken.
pub proof fn lemma_survivors_push(
    hits: Seq<IndexResult>,
    h: IndexResult,
    cache: Seq<NoteMetadata>,
    tombs: Seq<String>,
    seen: Set<Seq<char>>,
)
    ensures
        survivors(hits.push(h), cache, tombs, seen) == if passes(cache, tombs, h)
            && !seen.contains(h.note_id@) && !hits_have(
            survivors(hits, cache, tombs, seen),
            h.note_id@,
        ) {
            survivors(hits, cache, tombs, seen).push(h)
        } else {
            survivors(hits, cache, tombs, seen)
        },
    decreases hits.len(),
{
    let s = survivors(hits, cache, tombs, seen);
    if hits.len() == 0 {
        let hp = hits.push(h);
        assert(hp[0] == h);
        assert(hp.len() == 1);
        assert(hp.drop_first().len() == 0);
        assert(s.len() == 0);
        assert(!hits_have(s, h.note_id@));
        if passes(cache, tombs, h) && !seen.contains(h.note_id@) {
            assert(survivors(hp, cache, tombs, seen) == seq![hp[0]] + survivors(
                hp.drop_first(),
                cache,
                tombs,
                seen.insert(hp[0].note_id@),
            ));
            assert(survivors(hp.drop_first(), cache, tombs, seen.insert(hp[0].note_id@)).len()
                == 0);
            assert(survivors(hp, cache, tombs, seen) =~= s.push(h));
        } else {
            assert(survivors(hp, cache, tombs, seen) == survivors(hp.drop_first(), cache, tombs, seen));
            assert(survivors(hp.drop_first(), cache, tombs, seen).len() == 0);
            assert(survivors(hp, cache, tombs, seen) =~= s);
        }
    } else {
        let h0 = hits[0];
        let rest = hits.drop_first();
        assert(hits.push(h)[0] == h0);
        assert(hits.push(h).drop_first() =~= rest.push(h));
        if passes(cache, tombs, h0) && !seen.contains(h0.note_id@) {
            let seen1 = seen.insert(h0.note_id@);
            let srest = survivors(rest, cache, tombs, seen1);
            lemma_survivors_push(rest, h, cache, tombs, seen1);
            assert(s == seq![h0] + srest);
            assert forall|id: Seq<char>| #[trigger] hits_have(s, id) <==> (id == h0.note_id@
                || hits_have(srest, id)) by {
                if hits_have(s, id) {
                    let j = choose|j: int| 0 <= j < s.len() && s[j].note_id@ == id;
                    if j > 0 {
                        assert(srest[j - 1].note_id@ == id);
                    }
                }
                if hits_have(srest, id) {
                    let j = choose|j: int| 0 <= j < srest.len() && srest[j].note_id@ == id;
                    assert(s[j + 1].note_id@ == id);
                }
                if id == h0.note_id@ {
                    assert(s[0].note_id@ == id);
                }
            }
            let keep = passes(cache, tombs, h) && !seen.contains(h.note_id@) && !hits_have(
                s,
                h.note_id@,
            );
            let keep1 = passes(cache, tombs, h) && !seen1.contains(h.note_id@) && !hits_have(
                srest,
                h.note_id@,
            );
            assert(keep == keep1);
            if keep {
                assert(survivors(hits.push(h), cache, tombs, seen) == seq![h0] + srest.push(h));
                assert(seq![h0] + srest.push(h) =~= (seq![h0] + srest).push(h));
            } else {
                assert(survivors(hits.push(h), cache, tombs, seen) == seq![h0] + srest);
            }
        } else {
            lemma_survivors_push(rest, h, cache, tombs, seen);
            assert(s == survivors(rest, cache, tombs, seen));
            assert(survivors(hits.push(h), cache, tombs, seen) == survivors(
                rest.push(h),
                cache,
                tombs,
                seen,
            ));
        }
    }
}

/// Every survivor passed the filters, and no id is taken twice.
pub proof fn lemma_survivors_sound(
    hits: Seq<IndexResult>,
    cache: Seq<NoteMetadata>,
    tombs: Seq<String>,
    seen: Set<Seq<char>>,
)
    ensures
        forall|k: int|
            0 <= k < survivors(hits, cache, tombs, seen).len() ==> passes(
                cache,
                tombs,
                #[trigger] survivors(hits, cache, tombs, seen)[k],
            ) && !seen.contains(survivors(hits, cache, tombs, seen)[k].note_id@),
        forall|k: int, l: int|
            0 <= k < l < survivors(hits, cache, tombs, seen).len()
                ==> #[trigger] survivors(hits, cache, tombs, seen)[k].note_id@
                != #[trigger] survivors(hits, cache, tombs, seen)[l].note_id@,
    decreases hits.len(),
{
    let s = survivors(hits, cache, tombs, seen);
    if hits.len() == 0 {
    } else {
        let h0 = hits[0];
        let rest = hits.drop_first();
        if passes(cache, tombs, h0) && !seen.contains(h0.note_id@) {
            let seen1 = seen.insert(h0.note_id@);
            let srest = survivors(rest, cache, tombs, seen1);
            lemma_survivors_sound(rest, cache, tombs, seen1);
            assert(s == seq![h0] + srest);
            assert forall|k: int| 0 <= k < s.len() implies passes(cache, tombs, s[k])
                && !seen.contains(s[k].note_id@) by {
                if k > 0 {
                    assert(s[k] == srest[k - 1]);
                    assert(!seen1.contains(srest[k - 1].note_id@));
                }
            }
            assert forall|k: int, l: int| 0 <= k < l < s.len() implies s[k].note_id@
                != s[l].note_id@ by {
                if k == 0 {
                    assert(s[l] == srest[l - 1]);
                    assert(!seen1.contains(srest[l - 1].note_id@));
                } else {
                    assert(s[k] == srest[k - 1]);
                    assert(s[l] == srest[l - 1]);
                }
            }
        } else {
            lemma_survivors_sound(rest, cache, tombs, seen);
            let srest = survivors(rest, cache, tombs, seen);
            assert(s == srest);
            assert forall|k: int| 0 <= k < s.len() implies passes(cache, tombs, s[k])
                && !seen.contains(s[k].note_id@) by {
                assert(s[k] == srest[k]);
            }
            assert forall|k: int, l: int| 0 <= k < l < s.len() implies s[k].note_id@
                != s[l].note_id@ by {
                assert(s[k] == srest[k]);
                assert(s[l] == srest[l]);
            }
        }
    }
}

/// Hits sorted by score, descending.
pub open spec fn sorted_desc(hits: Seq<IndexResult>) -> bool {
    forall|i: int, j: int| 0 <= i < j < hits.len() ==> (#[trigger] hits[i]).score
        >= (#[trigger] hits[j]).score
}

/// For score-sorted input, every passing hit whose id is not yet seen is
/// represented among the survivors by an occurrence scoring at least as
/// high: first-occurrence deduplication prefers the best occurrence.
pub proof fn lemma_survivors_prefer_best(
    hits: Seq<IndexResult>,
    cache: Seq<NoteMetadata>,
    tombs: Seq<String>,
    seen: Set<Seq<char>>,
    i: int,
)
    requires
        sorted_desc(hits),
        0 <= i < hits.len(),
        passes(cache, tombs, hits[i]),
        !seen.contains(hits[i].note_id@),
    ensures
        exists|k: int|
            0 <= k < survivors(hits, cache, tombs, seen).len() && (#[trigger] survivors(
                hits,
                cache,
                tombs,
                seen,
            )[k]).note_id@ == hits[i].note_id@ && survivors(hits, cache, tombs, seen)[k].score
                >= hits[i].score,
    decreases hits.len(),
{
    let s = survivors(hits, cache, tombs, seen);
    let h0 = hits[0];
    let rest = hits.drop_first();
    assert(forall|a: int| 0 <= a < rest.len() ==> #[trigger] rest[a] == hits[a + 1]);
    assert(sorted_desc(rest));
    if passes(cache, tombs, h0) && !seen.contains(h0.note_id@) {
        let seen1 = seen.insert(h0.note_id@);
        let srest = survivors(rest, cache, tombs, seen1);
        assert(s == seq![h0] + srest);
        if i == 0 {
            assert(s[0] == h0);
        } else if hits[i].note_id@ == h0.note_id@ {
            assert(s[0].note_id@ == hits[i].note_id@);
            assert(s[0].score >= hits[i].score);
        } else {
            assert(rest[i - 1] == hits[i]);
            lemma_survivors_prefer_best(rest, cache, tombs, seen1, i - 1);
            let k = choose|k: int|
                0 <= k < srest.len() && (#[trigger] srest[k]).note_id@ == rest[i - 1].note_id@
                    && srest[k].score >= rest[i - 1].score;
            assert(s[k + 1] == srest[k]);
        }
    } else {
        assert(i != 0);
        assert(rest[i - 1] == hits[i]);
        lemma_survivors_prefer_best(rest, cache, tombs, seen, i - 1);
    }
}

/// Sort hits by score, descending, as the index wrapper does before
/// handing hits to deduplication: the same hits, reordered. Ties keep
/// an arbitrary order.
pub fn sort_hits_desc(hits: Vec<IndexResult>) -> (r: Vec<IndexResult>)
    ensures
        sorted_desc(r@),
        r@.to_multiset() == hits@.to_multiset(),
        r@.len() == hits@.len(),
{
    broadcast use vstd::seq_lib::group_to_multiset_ensures;
    broadcast use vstd::multiset::group_multiset_axioms;

    let mut rest = hits;
    let mut out: Vec<IndexResult> = Vec::new();
    proof {
        assert(out@.to_multiset().add(rest@.to_multiset()) =~= hits@.to_multiset());
    }
    while rest.len() > 0
        invariant
            sorted_desc(out@),
            out@.to_multiset().add(rest@.to_multiset()) == hits@.to_multiset(),
            out@.len() + rest@.len() == hits@.len(),
            forall|a: int, b: int|
                0 <= a < out@.len() && 0 <= b < rest@.len() ==> (#[trigger] out@[a]).score
                    >= (#[trigger] rest@[b]).score,
        decreases rest.len(),
    {
        let n = rest.len();
        let mut imax: usize = 0;
        let mut j: usize = 1;
        while j < n
            invariant
                n == rest@.len(),
                0 < n,
                imax < j <= n,
                forall|k: int|
                    0 <= k < j ==> rest@[imax as int].score >= (#[trigger] rest@[k]).score,
            decreases n - j,
        {
            if rest[j].score > rest[imax].score {
                imax = j;
            }
            j += 1;
        }
        let ghost pre_rest = rest@;
        let ghost pre_out = out@;
        let x = rest.remove(imax);
        out.push(x);
        proof {
            assert(x == pre_rest[imax as int]);
            assert(rest@ == pre_rest.remove(imax as int));
            assert(out@ == pre_out.push(x));
            assert(pre_rest.contains(x));
            vstd::seq_lib::to_multiset_contains(pre_rest, x);
            vstd::seq_lib::to_multiset_build(pre_out, x);
            vstd::seq_lib::to_multiset_remove(pre_rest, imax as int);
            assert(pre_rest.to_multiset().count(x) > 0);
            assert(out@.to_multiset() =~= pre_out.to_multiset().insert(x));
            assert(rest@.to_multiset() =~= pre_rest.to_multiset().remove(x));
            assert(out@.to_multiset().add(rest@.to_multiset()) =~= hits@.to_multiset()) by {
                assert forall|e: IndexResult|
                    out@.to_multiset().add(rest@.to_multiset()).count(e)
                        == hits@.to_multiset().count(e) by {
                    assert(out@.to_multiset().count(e) == pre_out.to_multiset().insert(x).count(e));
                    assert(rest@.to_multiset().count(e) == pre_rest.to_multiset().remove(x).count(
                        e,
                    ));
                }
            }
            assert(forall|b: int|
                0 <= b < rest@.len() ==> #[trigger] rest@[b] == (if b < imax {
                    pre_rest[b]
                } else {
                    pre_rest[b + 1]
                }));
            assert forall|a: int, b: int|
                0 <= a < out@.len() && 0 <= b < rest@.len() implies (#[trigger] out@[a]).score
                >= (#[trigger] rest@[b]).score by {
                if a < pre_out.len() {
                    assert(out@[a] == pre_out[a]);
                } else {
                    assert(out@[a] == x);
                }
            }
            assert forall|a: int, b: int| 0 <= a < b < out@.len() implies (#[trigger] out@[a]).score
                >= (#[trigger] out@[b]).score by {
                if b == pre_out.len() {
                    assert(out@[b] == x);
                    assert(out@[a] == pre_out[a]);
                    assert(pre_out[a].score >= pre_rest[imax as int].score);
                } else {
                    assert(out@[a] == pre_out[a]);
                    assert(out@[b] == pre_out[b]);
                }
            }
        }
    }
    proof {
        assert(rest@.to_multiset().len() == 0);
        assert(out@.to_multiset().add(rest@.to_multiset()) =~= out@.to_multiset());
    }
    out
}

/// A tombstoned note id never appears among the ranked hits, even while
/// hits for it remain physically present in the vector index. After a
/// delta pass, `AppState::apply_deleted_ids` guarantees `set_has` for
/// every deleted id, so a subsequent search never returns such a note.
pub proof fn lemma_tombstoned_never_ranked(
    hits: Seq<IndexResult>,
    cache: Seq<NoteMetadata>,
    tombs: Seq<String>,
    x: Seq<char>,
)
    requires
        set_has(tombs, x),
    ensures
        forall|k: int|
            0 <= k < ranked(hits, cache, tombs).len() ==> (#[trigger] ranked(
                hits,
                cache,
                tombs,
            )[k]).note_id@ != x,
{
    let s = survivors(hits, cache, tombs, Set::empty());
    let rk = ranked(hits, cache, tombs);
    lemma_survivors_sound(hits, cache, tombs, Set::empty());
    assert forall|k: int| 0 <= k < rk.len() implies (#[trigger] rk[k]).note_id@ != x by {
        assert(rk[k] == s[k]);
        assert(passes(cache, tombs, s[k]));
    }
}

/// A hit that passes the filters and whose id is not yet taken always
/// keeps its id represented among the survivors. After a delta pass,
/// `AppState::apply_changed_notes` guarantees for every changed note
/// that its tombstone is cleared and its metadata is cached, so a hit
/// for it at or above the similarity floor passes, and the note is
/// searchable again.
pub proof fn lemma_passing_hit_represented(
    hits: Seq<IndexResult>,
    cache: Seq<NoteMetadata>,
    tombs: Seq<String>,
    seen: Set<Seq<char>>,
    i: int,
)
    requires
        0 <= i < hits.len(),
        passes(cache, tombs, hits[i]),
        !seen.contains(hits[i].note_id@),
    ensures
        hits_have(survivors(hits, cache, tombs, seen), hits[i].note_id@),
    decreases hits.len(),
{
    let s = survivors(hits, cache, tombs, seen);
    let h0 = hits[0];
    let rest = hits.drop_first();
    assert(forall|a: int| 0 <= a < rest.len() ==> #[trigger] rest[a] == hits[a + 1]);
    if passes(cache, tombs, h0) && !seen.contains(h0.note_id@) {
        let seen1 = seen.insert(h0.note_id@);
        let srest = survivors(rest, cache, tombs, seen1);
        assert(s == seq![h0] + srest);
        if i == 0 || hits[i].note_id@ == h0.note_id@ {
            assert(s[0].note_id@ == hits[i].note_id@);
        } else {
            assert(rest[i - 1] == hits[i]);
            lemma_passing_hit_represented(rest, cache, tombs, seen1, i - 1);
            let j = choose|j: int| 0 <= j < srest.len() && srest[j].note_id@ == hits[i].note_id@;
            assert(s[j + 1].note_id@ == hits[i].note_id@);
        }
    } else {
        assert(i != 0);
        assert(rest[i - 1] == hits[i]);
        lemma_passing_hit_represented(rest, cache, tombs, seen, i - 1);
    }
}

/// Whether some already-collected result carries `id`.
fn results_carry(results: &Vec<SearchResult>, id: &str) -> (r: bool)
    ensures
        r == exists|j: int|
            0 <= j < results@.len() && (#[trigger] results@[j]).note.id@ == id@,
{
    let n = results.len();
    for i in 0..n
        invariant
            n == results@.len(),
            forall|j: int| 0 <= j < i ==> (#[trigger] results@[j]).note.id@ != id@,
    {
        if crate::text::str_eq(results[i].note.id.as_str(), id) {
            return true;
        }
    }
    false
}

/// Rank raw index hits: drop tombstoned ids, join against the cache
/// (hits with no cache entry are dropped), discard scores below
/// `MIN_SCORE`, keep the first occurrence per id, and return at most
/// `MAX_RESULTS` results, in hit order.
pub fn rank_hits(hits: &Vec<IndexResult>, cache: &NoteCache, tombs: &TombstoneSet) -> (r: Vec<
    SearchResult,
>)
    ensures
        results_match(r@, ranked(hits@, cache@, tombs@), cache@),
        r@.len() <= MAX_RESULTS,
        forall|k: int|
            0 <= k < r@.len() ==> !set_has(tombs@, (#[trigger] r@[k]).note.id@) && has_id(
                cache@,
                r@[k].note.id@,
            ) && r@[k].score >= MIN_SCORE && cache@.contains(r@[k].note),
        forall|k: int, l: int|
            0 <= k < l < r@.len() ==> (#[trigger] r@[k]).note.id@ != (#[trigger] r@[l]).note.id@,
{
    let mut out: Vec<SearchResult> = Vec::new();
    let n = hits.len();
    for i in 0..n
        invariant
            n == hits@.len(),
            results_match(
                out@,
                survivors(hits@.take(i as int), cache@, tombs@, Set::empty()),
                cache@,
            ),
    {
        let h = &hits[i];
        let keep: bool = if h.score >= MIN_SCORE && !tombs.contains(h.note_id.as_str())
            && !results_carry(&out, h.note_id.as_str()) {
            true
        } else {
            false
        };
        let ghost pre = out@;
        let ghost spre = survivors(hits@.take(i as int), cache@, tombs@, Set::empty());
        if keep {
            match cache.get(h.note_id.as_str()) {
                Some(meta) => {
                    out.push(SearchResult { note: meta, score: h.score });
                },
                None => {},
            }
        }
        proof {
            let hv = hits@[i as int];
            assert(hits@.take(i + 1) =~= hits@.take(i as int).push(hv));
            lemma_survivors_push(
                hits@.take(i as int),
                hv,
                cache@,
                tombs@,
                Set::<Seq<char>>::empty(),
            );
            let snext = survivors(hits@.take(i + 1), cache@, tombs@, Set::empty());
            assert forall|id: Seq<char>| #[trigger] hits_have(spre, id) <==> exists|j: int|
                0 <= j < pre.len() && (#[trigger] pre[j]).note.id@ == id by {
                if hits_have(spre, id) {
                    let j = choose|j: int| 0 <= j < spre.len() && spre[j].note_id@ == id;
                    assert(pre[j].note.id@ == id);
                }
                if exists|j: int| 0 <= j < pre.len() && (#[trigger] pre[j]).note.id@ == id {
                    let j = choose|j: int| 0 <= j < pre.len() && pre[j].note.id@ == id;
                    assert(spre[j].note_id@ == id);
                }
            }
            if passes(cache@, tombs@, hv) && !hits_have(spre, hv.note_id@) {
                assert(snext == spre.push(hv));
                assert(keep);
                assert(out@ == pre.push(out@[pre.len() as int]));
                assert(results_match(out@, snext, cache@));
            } else {
                assert(snext == spre);
                if keep {
                    assert(!(h.score >= MIN_SCORE) || set_has(tombs@, hv.note_id@) || !has_id(
                        cache@,
                        hv.note_id@,
                    ));
                    assert(out@ == pre);
                }
                assert(results_match(out@, snext, cache@));
            }
        }
    }
    proof {
        assert(hits@.take(n as int) =~= hits@);
    }
    out.truncate(MAX_RESULTS);
    proof {
        let s = survivors(hits@, cache@, tombs@, Set::empty());
        lemma_survivors_sound(hits@, cache@, tombs@, Set::empty());
        if s.len() <= MAX_RESULTS {
            assert(ranked(hits@, cache@, tombs@) == s);
        } else {
            assert(out@ =~= out@.subrange(0, MAX_RESULTS as int));
        }
    }
    out
}

/// For score-sorted hits, each returned result carries the highest score
/// among the passing hits of its id: deduplication kept the best
/// occurrence.
pub proof fn lemma_dedup_prefers_best(
    hits: Seq<IndexResult>,
    cache: Seq<NoteMetadata>,
    tombs: Seq<String>,
)
    requires
        sorted_desc(hits),
    ensures
        forall|k: int, i: int|
            0 <= k < ranked(hits, cache, tombs).len() && 0 <= i < hits.len() && passes(
                cache,
                tombs,
                #[trigger] hits[i],
            ) && (#[trigger] ranked(hits, cache, tombs)[k]).note_id@ == hits[i].note_id@ ==> ranked(
                hits,
                cache,
                tombs,
            )[k].score >= hits[i].score,
{
    let s = survivors(hits, cache, tombs, Set::empty());
    let rk = ranked(hits, cache, tombs);
    lemma_survivors_sound(hits, cache, tombs, Set::empty());
    assert forall|k: int, i: int|
        0 <= k < rk.len() && 0 <= i < hits.len() && passes(cache, tombs, #[trigger] hits[i]) && (
        #[trigger] rk[k]).note_id@ == hits[i].note_id@ implies rk[k].score >= hits[i].score by {
        lemma_survivors_prefer_best(hits, cache, tombs, Set::empty(), i);
        let k2 = choose|k2: int|
            0 <= k2 < s.len() && (#[trigger] s[k2]).note_id@ == hits[i].note_id@ && s[k2].score
                >= hits[i].score;
        assert(rk[k] == s[k]);
        assert(k2 == k);
    }
}

} // verus!
