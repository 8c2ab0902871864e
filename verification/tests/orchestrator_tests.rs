use joplin_smart_search::orchestrator::{
    cache_from_notes, index_capacity, max_updated_time, progress_thousandths,
    score_from_distance, should_schedule_rebuild, BATCH_SIZE, MIN_CAPACITY,
    REBUILD_INTERVAL_MS,
};
use joplin_smart_search::text::{embed_input, str_eq};
use joplin_smart_search::types::Note;

fn id_of(n: u8) -> String {
    format!("{:0>32}", format!("{:02x}", n))
}

fn note(n: u8, title: &str, ts: i64) -> Note {
    Note { id: id_of(n), title: title.to_string(), body: format!("body {}", n), updated_time: ts }
}

#[test]
fn capacity_is_twice_count_with_floor() {
    assert_eq!(index_capacity(0), MIN_CAPACITY);
    assert_eq!(index_capacity(999), MIN_CAPACITY);
    assert_eq!(index_capacity(1000), MIN_CAPACITY);
    assert_eq!(index_capacity(1001), 2002);
    assert_eq!(index_capacity(5000), 10_000);
}

#[test]
fn progress_is_ratio_in_thousandths() {
    assert_eq!(progress_thousandths(0, 0), 0);
    assert_eq!(progress_thousandths(0, 10), 0);
    assert_eq!(progress_thousandths(5, 10), 500);
    assert_eq!(progress_thousandths(10, 10), 1000);
    assert_eq!(progress_thousandths(BATCH_SIZE, 3 * BATCH_SIZE), 333);
}

#[test]
fn max_updated_time_floors_at_zero() {
    assert_eq!(max_updated_time(&Vec::new()), 0);
    let notes = vec![note(1, "a", 5), note(2, "b", 9), note(3, "c", 7)];
    assert_eq!(max_updated_time(&notes), 9);
    let notes = vec![note(1, "a", -5)];
    assert_eq!(max_updated_time(&notes), 0);
}

#[test]
fn score_conversion_clamps_to_unit_interval() {
    assert_eq!(score_from_distance(0), 1000);
    assert_eq!(score_from_distance(-3), 1000);
    assert_eq!(score_from_distance(250), 750);
    assert_eq!(score_from_distance(1000), 0);
    assert_eq!(score_from_distance(1500), 0);
}

#[test]
fn rebuild_scheduled_exactly_at_interval() {
    assert!(!should_schedule_rebuild(0, REBUILD_INTERVAL_MS - 1));
    assert!(should_schedule_rebuild(0, REBUILD_INTERVAL_MS));
    assert!(should_schedule_rebuild(1_000, 1_000 + REBUILD_INTERVAL_MS + 5));
    assert!(!should_schedule_rebuild(1_000, 1_000));
}

#[test]
fn cache_from_notes_keeps_one_entry_per_id_last_wins() {
    let notes = vec![note(1, "one", 5), note(2, "two", 6), note(1, "one again", 8)];
    let c = cache_from_notes(&notes);
    assert_eq!(c.len(), 2);
    let m = c.get(&id_of(1)).expect("entry for id 1");
    assert_eq!(m.title, "one again");
    assert_eq!(m.updated_time, 8);
    assert_eq!(c.get(&id_of(2)).expect("entry for id 2").title, "two");
}

#[test]
fn embed_input_joins_title_and_body_with_blank_line() {
    assert_eq!(embed_input("Title", "Body text"), "Title\n\nBody text");
    assert_eq!(embed_input("", ""), "\n\n");
}

#[test]
fn str_eq_compares_contents() {
    assert!(str_eq("abc", "abc"));
    assert!(!str_eq("abc", "abd"));
    assert!(!str_eq("abc", "ab"));
    assert!(str_eq("", ""));
    assert!(str_eq("naïve", "naïve"));
    assert!(!str_eq("naïve", "naive"));
}
