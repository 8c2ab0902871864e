use joplin_smart_search::watcher::{combine_mtimes, WatcherState, DEBOUNCE_MS, POLL_INTERVAL_MS};

#[test]
fn first_observation_is_baseline_not_change() {
    let mut w = WatcherState::new();
    // Cold start: the very first detected modification time never fires.
    let fire = w.tick(Some(1_000), 0);
    assert!(!fire);
    assert_eq!(w.last_modified, Some(1_000));
    assert_eq!(w.pending_since, None);
    // Same mtime again: still nothing pending.
    let fire = w.tick(Some(1_000), POLL_INTERVAL_MS);
    assert!(!fire);
    assert_eq!(w.pending_since, None);
}

#[test]
fn change_fires_only_after_quiet_period() {
    let mut w = WatcherState::new();
    assert!(!w.tick(Some(1_000), 0));
    // A subsequent change starts the debounce timer but does not fire.
    let fire = w.tick(Some(2_000), 10_000);
    assert!(!fire);
    assert_eq!(w.pending_since, Some(10_000));
    // Quiet period not yet elapsed at the next instant checked.
    assert!(!w.tick(Some(2_000), 10_000 + DEBOUNCE_MS - 1));
    // Once the quiet period has elapsed with no further change: fire.
    let fire = w.tick(Some(2_000), 10_000 + DEBOUNCE_MS);
    assert!(fire);
    // Fired exactly once, then reset to idle.
    assert_eq!(w.pending_since, None);
    assert!(!w.tick(Some(2_000), 10_000 + 2 * DEBOUNCE_MS));
}

#[test]
fn further_change_restarts_debounce() {
    let mut w = WatcherState::new();
    assert!(!w.tick(Some(1), 0));
    assert!(!w.tick(Some(2), 10_000));
    // Another write lands before the quiet period elapses: timer restarts.
    assert!(!w.tick(Some(3), 14_000));
    assert_eq!(w.pending_since, Some(14_000));
    assert!(!w.tick(Some(3), 18_000));
    assert!(w.tick(Some(3), 14_000 + DEBOUNCE_MS + 1));
}

#[test]
fn no_observation_changes_nothing() {
    let mut w = WatcherState::new();
    assert!(!w.tick(None, 0));
    assert_eq!(w.last_modified, None);
    assert!(!w.tick(Some(5), 10_000));
    assert_eq!(w.last_modified, Some(5));
    // The file vanishing (no mtime) is not a change.
    assert!(!w.tick(None, 20_000));
    assert_eq!(w.last_modified, Some(5));
    assert_eq!(w.pending_since, None);
}

#[test]
fn combine_mtimes_takes_newest_of_primary_and_wal() {
    assert_eq!(combine_mtimes(Some(10), Some(20)), Some(20));
    assert_eq!(combine_mtimes(Some(30), Some(20)), Some(30));
    assert_eq!(combine_mtimes(Some(10), None), Some(10));
    assert_eq!(combine_mtimes(None, Some(20)), Some(20));
    assert_eq!(combine_mtimes(None, None), None);
}
