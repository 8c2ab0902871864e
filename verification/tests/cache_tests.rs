use joplin_smart_search::cache::NoteCache;
use joplin_smart_search::tombstones::TombstoneSet;
use joplin_smart_search::types::NoteMetadata;

fn meta(id: &str, title: &str, ts: i64) -> NoteMetadata {
    NoteMetadata { id: id.to_string(), title: title.to_string(), updated_time: ts }
}

#[test]
fn cache_upsert_inserts_and_replaces() {
    let mut c = NoteCache::new();
    assert_eq!(c.len(), 0);
    assert!(!c.contains_id("a"));
    c.upsert(meta("a", "first", 1));
    assert_eq!(c.len(), 1);
    assert!(c.contains_id("a"));
    assert_eq!(c.get("a").unwrap().title, "first");
    // Upserting the same id replaces, never duplicates.
    c.upsert(meta("a", "second", 2));
    assert_eq!(c.len(), 1);
    assert_eq!(c.get("a").unwrap().title, "second");
    c.upsert(meta("b", "other", 3));
    assert_eq!(c.len(), 2);
}

#[test]
fn cache_remove_id_removes_only_that_entry() {
    let mut c = NoteCache::new();
    c.upsert(meta("a", "one", 1));
    c.upsert(meta("b", "two", 2));
    c.remove_id("a");
    assert!(!c.contains_id("a"));
    assert!(c.get("a").is_none());
    assert!(c.contains_id("b"));
    assert_eq!(c.len(), 1);
    // Removing an absent id changes nothing.
    c.remove_id("zz");
    assert_eq!(c.len(), 1);
}

#[test]
fn cache_clear_empties() {
    let mut c = NoteCache::new();
    c.upsert(meta("a", "one", 1));
    c.clear();
    assert_eq!(c.len(), 0);
    assert!(!c.contains_id("a"));
}

#[test]
fn tombstones_insert_is_idempotent() {
    let mut t = TombstoneSet::new();
    assert!(!t.contains("a"));
    t.insert("a");
    t.insert("a");
    assert_eq!(t.len(), 1);
    assert!(t.contains("a"));
    t.insert("b");
    assert_eq!(t.len(), 2);
}

#[test]
fn tombstones_remove_clears_only_that_id() {
    let mut t = TombstoneSet::new();
    t.insert("a");
    t.insert("b");
    t.remove("a");
    assert!(!t.contains("a"));
    assert!(t.contains("b"));
    // Removing an absent id changes nothing.
    t.remove("zz");
    assert_eq!(t.len(), 1);
}

#[test]
fn tombstones_clear_empties() {
    let mut t = TombstoneSet::new();
    t.insert("a");
    t.clear();
    assert_eq!(t.len(), 0);
    assert!(!t.contains("a"));
}
