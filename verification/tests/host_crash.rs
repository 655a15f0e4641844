use dsh_launcher::host::crash::{
    record_crash, reset_crash_counter, CrashDecision, CRASH_RETRY_LIMIT,
};
use dsh_launcher::state::AppState;

const T0: i128 = 1_700_000_000_000_000_000;
const S: i128 = 1_000_000_000;

#[test]
fn first_crash_restarts() {
    let mut state = AppState::new();
    let d = record_crash(&mut state, T0);
    assert_eq!(d, CrashDecision::RestartCurrent);
    assert_eq!(state.crash_counter, 1);
}

#[test]
fn crashes_below_limit_keep_restarting() {
    let mut state = AppState::new();
    record_crash(&mut state, T0);
    let d = record_crash(&mut state, T0 + 30 * S);
    assert_eq!(d, CrashDecision::RestartCurrent);
    assert_eq!(state.crash_counter, 2);
}

#[test]
fn third_crash_reaches_limit() {
    let mut state = AppState::new();
    record_crash(&mut state, T0);
    record_crash(&mut state, T0 + 30 * S);
    let d = record_crash(&mut state, T0 + 60 * S);
    assert_eq!(d, CrashDecision::LimitReached);
    assert_eq!(state.crash_counter, CRASH_RETRY_LIMIT);
}

#[test]
fn crash_after_window_starts_new_episode() {
    let mut state = AppState::new();
    record_crash(&mut state, T0);
    record_crash(&mut state, T0 + 30 * S);
    let d = record_crash(&mut state, T0 + 600 * S);
    assert_eq!(d, CrashDecision::RestartCurrent);
    assert_eq!(state.crash_counter, 1);
}

#[test]
fn crash_exactly_at_the_window_starts_new_episode() {
    let mut state = AppState::new();
    record_crash(&mut state, T0);
    record_crash(&mut state, T0 + 299 * S);
    assert_eq!(state.crash_counter, 2);
    record_crash(&mut state, T0 + (299 + 300) * S);
    assert_eq!(state.crash_counter, 1);
}

#[test]
fn reset_clears_counter_and_timestamp() {
    let mut state = AppState::new();
    record_crash(&mut state, T0);
    reset_crash_counter(&mut state);
    assert_eq!(state.crash_counter, 0);
    assert!(state.last_crash_at.is_none());
}

#[test]
fn counter_saturates() {
    let mut state = AppState::new();
    state.crash_counter = u32::MAX;
    state.last_crash_at = Some(T0);
    assert_eq!(record_crash(&mut state, T0 + S), CrashDecision::LimitReached);
    assert_eq!(state.crash_counter, u32::MAX);
}

#[test]
fn crash_window_counts_fractions_of_a_second() {
    // Last crash at 10.9 s, this one at 310.6 s: 299.7 s apart, same run.
    let mut state = AppState::new();
    record_crash(&mut state, 10_900_000_000);
    record_crash(&mut state, 310_600_000_000);
    assert_eq!(state.crash_counter, 2);
    // 300.0 s apart exactly starts a new run.
    let mut later = AppState::new();
    record_crash(&mut later, 10_900_000_000);
    record_crash(&mut later, 310_900_000_000);
    assert_eq!(later.crash_counter, 1);
}
