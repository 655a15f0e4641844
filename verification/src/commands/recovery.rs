//! After the host crashed: record the crash, then either restart the
//! current version or ask the user (roll back, retry or quit).
use vstd::prelude::*;

use crate::host::crash::{decision_for, next_crash_count, record_crash, CrashDecision, CRASH_RETRY_LIMIT};
use crate::host::supervisor::HostExitDetail;
use crate::state::{copy_opt, opt_str, AppState};

verus! {

broadcast use vstd::string::group_string_axioms;

/// What the user is asked after too many crashes.
#[derive(Debug, Clone, PartialEq, Eq)]
pub struct CrashLimitPayload {
    pub crash_counter: u32,
    pub retry_limit: u32,
    pub exit_code: Option<i32>,
    pub exit_signal: Option<i32>,
    pub known_good: Option<String>,
}

/// What the frontend is told after an automatic restart.
#[derive(Debug, Clone, PartialEq, Eq)]
pub struct HostRestartedPayload {
    pub attempt: u32,
    pub origin: String,
}

/// How a crash was handled.
#[derive(Debug, Clone, PartialEq, Eq)]
pub enum CrashAction {
    Restarted { attempt: u32, origin: String },
    PromptUser(CrashLimitPayload),
}

/// What follows the record of a crash.
pub enum CrashStep {
    /// Ask the user right away.
    Prompt(CrashLimitPayload),
    /// Restart the current version; ask the user with this payload if the
    /// restart fails.
    Restart { attempt: u32, fallback: CrashLimitPayload },
}

/// What the user is asked when the state could not be loaded: as at the
/// limit, without a known-good version.
pub fn prompt_without_state(exit: HostExitDetail) -> (r: CrashLimitPayload)
    ensures
        r == (CrashLimitPayload {
            crash_counter: CRASH_RETRY_LIMIT,
            retry_limit: CRASH_RETRY_LIMIT,
            exit_code: exit.code,
            exit_signal: exit.signal,
            known_good: None,
        }),
{
    CrashLimitPayload {
        crash_counter: CRASH_RETRY_LIMIT,
        retry_limit: CRASH_RETRY_LIMIT,
        exit_code: exit.code,
        exit_signal: exit.signal,
        known_good: None,
    }
}

/// Records a crash at `now` in `state` and decides what follows: below the
/// limit the current version is restarted, at the limit the user is asked.
pub fn decide_after_crash(state: &mut AppState, exit: HostExitDetail, now: i128) -> (r: CrashStep)
    ensures
        final(state).crash_counter == next_crash_count(
            old(state).crash_counter,
            old(state).last_crash_at,
            now,
        ),
        final(state).last_crash_at == Some(now),
        final(state).dsh == old(state).dsh,
        ({
            let p = CrashLimitPayload {
                crash_counter: final(state).crash_counter,
                retry_limit: CRASH_RETRY_LIMIT,
                exit_code: exit.code,
                exit_signal: exit.signal,
                known_good: old(state).dsh.known_good,
            };
            if decision_for(final(state).crash_counter) == CrashDecision::RestartCurrent {
                r matches CrashStep::Restart { attempt, fallback } && attempt == final(state).crash_counter && fallback == p
            } else {
                r matches CrashStep::Prompt(q) && q == p
            }
        }),
{
    let decision = record_crash(state, now);
    let counter = state.crash_counter;
    let payload = CrashLimitPayload {
        crash_counter: counter,
        retry_limit: CRASH_RETRY_LIMIT,
        exit_code: exit.code,
        exit_signal: exit.signal,
        known_good: copy_opt(&state.dsh.known_good),
    };
    match decision {
        CrashDecision::RestartCurrent => CrashStep::Restart { attempt: counter, fallback: payload },
        CrashDecision::LimitReached => CrashStep::Prompt(payload),
    }
}

/// The automatic restart finished: its origin, or `None` when building the
/// options or starting failed.
pub fn after_crash_restart(attempt: u32, origin: Option<String>, fallback: CrashLimitPayload) -> (r:
    CrashAction)
    ensures
        match origin {
            Some(o) => r == CrashAction::Restarted { attempt, origin: o },
            None => r == CrashAction::PromptUser(fallback),
        },
{
    match origin {
        Some(o) => CrashAction::Restarted { attempt, origin: o },
        None => CrashAction::PromptUser(fallback),
    }
}

} // verus!
