//! Crash recovery: how many times in a row the dsh host has died, and whether
//! the launcher restarts it or hands the decision to the user.
//!
//! A crash within [`CRASH_WINDOW_SECS`] of the previous one counts towards
//! the same run of crashes; a later one starts a new run at one. Below
//! [`CRASH_RETRY_LIMIT`] the current version is restarted; at the limit the
//! user decides. Starting the host by hand clears the count.
use vstd::prelude::*;

use crate::state::AppState;

verus! {

/// Crashes in a row after which the host is no longer restarted by itself.
pub const CRASH_RETRY_LIMIT: u32 = 3;

/// Two crashes less than this many seconds apart belong to the same run.
pub const CRASH_WINDOW_SECS: i128 = 300;

/// Nanoseconds in a second.
pub const NANOS_PER_SEC: i128 = 1_000_000_000;

/// What follows a recorded crash.
#[derive(Debug, Clone, Copy, PartialEq, Eq, Structural)]
pub enum CrashDecision {
    /// Restart the current version.
    RestartCurrent,
    /// The limit is reached: the user decides.
    LimitReached,
}

/// The crash at `now` continues the run that ended at `last` (both in
/// nanoseconds since the Unix epoch): less than the window lies between
/// them.
pub open spec fn within_window(last: Option<i128>, now: i128) -> bool {
    match last {
        None => true,
        Some(l) => now - l < CRASH_WINDOW_SECS * NANOS_PER_SEC,
    }
}

/// The crash count after a crash at `now`.
pub open spec fn next_crash_count(count: u32, last: Option<i128>, now: i128) -> u32 {
    if within_window(last, now) {
        if count == u32::MAX {
            count
        } else {
            (count + 1) as u32
        }
    } else {
        1
    }
}

/// The decision for a crash count.
pub open spec fn decision_for(count: u32) -> CrashDecision {
    if count < CRASH_RETRY_LIMIT {
        CrashDecision::RestartCurrent
    } else {
        CrashDecision::LimitReached
    }
}

/// Records a crash at `now` (nanoseconds since the epoch) and decides what
/// follows. The state is not saved here.
pub fn record_crash(state: &mut AppState, now: i128) -> (r: CrashDecision)
    ensures
        final(state).crash_counter == next_crash_count(
            old(state).crash_counter,
            old(state).last_crash_at,
            now,
        ),
        final(state).last_crash_at == Some(now),
        r == decision_for(final(state).crash_counter),
        final(state).dsh == old(state).dsh,
        final(state).node == old(state).node,
        final(state).node_mirror == old(state).node_mirror,
        final(state).bootstrap_plan == old(state).bootstrap_plan,
{
    let within = match state.last_crash_at {
        None => true,
        Some(last) => match now.checked_sub(last) {
            Some(elapsed) => elapsed < CRASH_WINDOW_SECS * NANOS_PER_SEC,
            None => now < last,
        },
    };
    state.crash_counter = if within {
        state.crash_counter.saturating_add(1)
    } else {
        1
    };
    state.last_crash_at = Some(now);
    if state.crash_counter < CRASH_RETRY_LIMIT {
        CrashDecision::RestartCurrent
    } else {
        CrashDecision::LimitReached
    }
}

/// The host was started by hand: the crash count starts again.
pub fn reset_crash_counter(state: &mut AppState)
    ensures
        final(state).crash_counter == 0,
        final(state).last_crash_at is None,
        final(state).dsh == old(state).dsh,
        final(state).node == old(state).node,
        final(state).node_mirror == old(state).node_mirror,
        final(state).bootstrap_plan == old(state).bootstrap_plan,
{
    state.crash_counter = 0;
    state.last_crash_at = None;
}

/// Below the limit every crash in a run restarts the host: the first
/// `CRASH_RETRY_LIMIT - 1` crashes of a run are restarted and the next one
/// reaches the limit.
pub proof fn law_crash_run_reaches_limit(count: u32, last: Option<i128>, now: i128)
    requires
        within_window(last, now),
        count < CRASH_RETRY_LIMIT,
    ensures
        next_crash_count(count, last, now) == count + 1,
        decision_for(next_crash_count(count, last, now)) == (if count + 1 < CRASH_RETRY_LIMIT {
            CrashDecision::RestartCurrent
        } else {
            CrashDecision::LimitReached
        }),
{
}

/// A crash after a quiet window starts a new run and is always restarted.
pub proof fn law_crash_after_window_restarts(count: u32, last: i128, now: i128)
    requires
        now - last >= CRASH_WINDOW_SECS * NANOS_PER_SEC,
    ensures
        next_crash_count(count, Some(last), now) == 1,
        decision_for(next_crash_count(count, Some(last), now)) == CrashDecision::RestartCurrent,
{
}

/// After a reset the next crash is the first of a run, whenever it comes.
pub proof fn law_reset_then_crash_restarts(now: i128)
    ensures
        next_crash_count(0, None, now) == 1,
        decision_for(next_crash_count(0, None, now)) == CrashDecision::RestartCurrent,
{
}

/// The count never goes down within a run and never wraps.
pub proof fn law_crash_count_monotone_in_run(count: u32, last: Option<i128>, now: i128)
    requires
        within_window(last, now),
    ensures
        next_crash_count(count, last, now) >= count,
        next_crash_count(count, last, now) >= 1,
{
}

} // verus!
