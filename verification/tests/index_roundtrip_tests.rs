use joplin_smart_search::cache::NoteCache;
use joplin_smart_search::orchestrator::score_from_distance;
use joplin_smart_search::ranking::rank_hits;
use joplin_smart_search::tombstones::TombstoneSet;
use joplin_smart_search::types::{IndexResult, NoteMetadata};
use ruvector_core::index::hnsw::HnswIndex;
use ruvector_core::index::VectorIndex;
use ruvector_core::types::{DistanceMetric, HnswConfig};

fn id_of(n: u8) -> String {
    format!("{:0>32}", format!("{:02x}", n))
}

fn unit(v: [f32; 4]) -> Vec<f32> {
    let norm: f32 = v.iter().map(|x| x * x).sum::<f32>().sqrt();
    v.iter().map(|x| x / norm).collect()
}

fn build_index() -> HnswIndex {
    let config = HnswConfig { m: 16, ef_construction: 200, ef_search: 50, max_elements: 2000 };
    let mut index = HnswIndex::new(4, DistanceMetric::Cosine, config).expect("index created");
    index.add(id_of(1), unit([1.0, 0.0, 0.0, 0.0])).expect("add");
    index.add(id_of(2), unit([0.9, 0.1, 0.0, 0.0])).expect("add");
    index.add(id_of(3), unit([0.0, 1.0, 0.0, 0.0])).expect("add");
    index.add(id_of(4), unit([0.0, 0.0, 1.0, 0.0])).expect("add");
    index
}

fn raw_results(index: &HnswIndex, query: &[f32]) -> Vec<(String, f32)> {
    index
        .search(query, 4)
        .expect("search")
        .into_iter()
        .map(|r| (r.id, r.score))
        .collect()
}

fn ranked_through_library(raw: &[(String, f32)]) -> Vec<(String, u32)> {
    // The index wrapper hands hits to the ranking path sorted by
    // ascending distance, i.e. descending similarity.
    let mut raw: Vec<(String, f32)> = raw.to_vec();
    raw.sort_by(|a, b| a.1.partial_cmp(&b.1).unwrap_or(std::cmp::Ordering::Equal));
    let hits: Vec<IndexResult> = raw
        .iter()
        .map(|(id, dist)| IndexResult {
            note_id: id.clone(),
            score: score_from_distance((dist * 1000.0).round() as i64),
        })
        .collect();
    let mut cache = NoteCache::new();
    for n in 1..=4u8 {
        cache.upsert(NoteMetadata {
            id: id_of(n),
            title: format!("note {}", n),
            updated_time: n as i64,
        });
    }
    let tombs = TombstoneSet::new();
    rank_hits(&hits, &cache, &tombs)
        .into_iter()
        .map(|r| (r.note.id, r.score))
        .collect()
}

#[test]
fn save_load_round_trip_preserves_search_results() {
    let index = build_index();
    let queries =
        [unit([1.0, 0.05, 0.0, 0.0]), unit([0.1, 1.0, 0.2, 0.0]), unit([0.3, 0.3, 0.9, 0.1])];

    let bytes = index.serialize().expect("serialize");
    let reloaded = HnswIndex::deserialize(&bytes).expect("deserialize");

    for q in &queries {
        let before = raw_results(&index, q);
        let after = raw_results(&reloaded, q);
        // Identical ids, ordering and scores.
        assert_eq!(before.len(), after.len());
        for (b, a) in before.iter().zip(after.iter()) {
            assert_eq!(b.0, a.0);
            assert_eq!(b.1, a.1);
        }
        // And identical ranked results through the library path.
        assert_eq!(ranked_through_library(&before), ranked_through_library(&after));
    }
}

#[test]
fn nearest_neighbour_ranks_first_through_library() {
    let index = build_index();
    let q = unit([1.0, 0.02, 0.0, 0.0]);
    let ranked = ranked_through_library(&raw_results(&index, &q));
    assert!(!ranked.is_empty());
    assert_eq!(ranked[0].0, id_of(1));
    // Scores are sorted descending and at or above the floor.
    for w in ranked.windows(2) {
        assert!(w[0].1 >= w[1].1);
    }
    for (_, s) in &ranked {
        assert!(*s >= 300);
    }
}
