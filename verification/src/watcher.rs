//! The change-watcher state machine: on each poll tick it takes the
//! newest observed modification time of the store's files, debounces
//! bursts of writes, and decides whether to fire a delta update. The
//! surrounding runtime does the sleeping and the file-time reads.

use vstd::prelude::*;

verus! {

/// Poll interval between ticks, in ms.
pub const POLL_INTERVAL_MS: i64 = 10000;

/// Quiet period after the last observed change before an update fires,
/// in ms.
pub const DEBOUNCE_MS: i64 = 5000;

/// Watcher state across ticks: the last modification time seen, and the
/// instant the debounce timer started, if one is running.
#[derive(Debug, Clone, Copy)]
pub struct WatcherState {
    /// Newest modification time observed so far; `None` until the first
    /// observation (the cold-start baseline).
    pub last_modified: Option<i64>,
    /// Monotonic instant (ms) at which the pending change was observed;
    /// `None` when no change is pending.
    pub pending_since: Option<i64>,
}

impl WatcherState {
    /// Debounce instants are monotonic-clock values, never negative.
    pub open spec fn wf(&self) -> bool {
        match self.pending_since {
            Some(t) => t >= 0,
            None => true,
        }
    }

    /// The idle state a watcher starts from: no baseline, no pending
    /// change.
    pub fn new() -> (r: Self)
        ensures
            r.last_modified is None,
            r.pending_since is None,
            r.wf(),
    {
        WatcherState { last_modified: None, pending_since: None }
    }
}

/// Whether a tick observing `observed` counts as a change: only a
/// modification time differing from an already-established baseline
/// does; the first observation is the baseline and is not a change.
pub open spec fn spec_tick_changed(s: WatcherState, observed: Option<i64>) -> bool {
    match (s.last_modified, observed) {
        (Some(prev), Some(cur)) => cur != prev,
        _ => false,
    }
}

/// The baseline after a tick: the observed time when there is one, else
/// the previous baseline.
pub open spec fn spec_tick_last(s: WatcherState, observed: Option<i64>) -> Option<i64> {
    match observed {
        Some(cur) => Some(cur),
        None => s.last_modified,
    }
}

/// The debounce timer after the change test: restarted at `now_ms` by a
/// change, otherwise left as it was.
pub open spec fn spec_tick_pending(s: WatcherState, observed: Option<i64>, now_ms: i64) -> Option<
    i64,
> {
    if spec_tick_changed(s, observed) {
        Some(now_ms)
    } else {
        s.pending_since
    }
}

/// Whether the tick fires a delta update: a timer is running and its
/// quiet period has elapsed.
pub open spec fn spec_tick_fires(s: WatcherState, observed: Option<i64>, now_ms: i64) -> bool {
    match spec_tick_pending(s, observed, now_ms) {
        Some(since) => now_ms - since >= DEBOUNCE_MS,
        None => false,
    }
}

impl WatcherState {
    /// One poll tick: record the newest observed modification time,
    /// (re)start the debounce timer on a change, and fire once the
    /// quiet period has elapsed with no further change, resetting the
    /// timer.
    pub fn tick(&mut self, observed: Option<i64>, now_ms: i64) -> (fire: bool)
        requires
            old(self).wf(),
            now_ms >= 0,
        ensures
            final(self).wf(),
            fire == spec_tick_fires(*old(self), observed, now_ms),
            final(self).last_modified == spec_tick_last(*old(self), observed),
            final(self).pending_since == if fire {
                Option::<i64>::None
            } else {
                spec_tick_pending(*old(self), observed, now_ms)
            },
    {
        let changed = match (self.last_modified, observed) {
            (Some(prev), Some(cur)) => cur != prev,
            _ => false,
        };
        if let Some(cur) = observed {
            self.last_modified = Some(cur);
        }
        if changed {
            self.pending_since = Some(now_ms);
        }
        let fire = match self.pending_since {
            Some(since) => now_ms - since >= DEBOUNCE_MS,
            None => false,
        };
        if fire {
            self.pending_since = None;
        }
        fire
    }
}

/// The newest of the two modification times watched (the primary store
/// file and its write-ahead log), when either is available.
pub fn combine_mtimes(main: Option<i64>, wal: Option<i64>) -> (r: Option<i64>)
    ensures
        r == match (main, wal) {
            (Some(a), Some(b)) => Some(if a >= b {
                a
            } else {
                b
            }),
            (Some(a), None) => Some(a),
            (None, Some(b)) => Some(b),
            (None, None) => Option::<i64>::None,
        },
{
    match (main, wal) {
        (Some(a), Some(b)) => Some(if a >= b {
            a
        } else {
            b
        }),
        (Some(a), None) => Some(a),
        (None, Some(b)) => Some(b),
        (None, None) => None,
    }
}

/// A cold-start tick never fires: the very first observed modification
/// time only establishes the baseline, and with no baseline there is no
/// change to debounce.
pub proof fn lemma_cold_start_never_fires(s: WatcherState, observed: Option<i64>, now_ms: i64)
    requires
        s.last_modified is None,
        s.pending_since is None,
    ensures
        !spec_tick_fires(s, observed, now_ms),
        spec_tick_pending(s, observed, now_ms) is None,
{
}

/// A tick that observes a change never fires: the change (re)starts the
/// quiet period, so the update comes only on a later tick.
pub proof fn lemma_change_postpones_fire(s: WatcherState, observed: Option<i64>, now_ms: i64)
    requires
        spec_tick_changed(s, observed),
    ensures
        !spec_tick_fires(s, observed, now_ms),
{
}

/// A tick fires only when a debounce timer was already running and its
/// quiet period has elapsed without a further change.
pub proof fn lemma_fire_needs_quiet_period(s: WatcherState, observed: Option<i64>, now_ms: i64)
    requires
        spec_tick_fires(s, observed, now_ms),
    ensures
        !spec_tick_changed(s, observed),
        s.pending_since is Some,
        now_ms - s.pending_since->0 >= DEBOUNCE_MS,
{
}

} // verus!
