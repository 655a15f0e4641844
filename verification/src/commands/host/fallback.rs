//! One retry with the known-good dsh: when the current version fails to
//! start because it is missing or the host failed, the known-good version
//! (if there is one other than current) is made current and started once.
use vstd::prelude::*;

use crate::dsh::version::{dsh_view, promote_spec, rollback_spec, rollback_to_known_good, same_except_dsh_core, DshDir, DshDirView, DshStateView};
use crate::error::{message_spec, Fault, LauncherError};
use crate::state::{opt_str, AppState, StateStatus};
use crate::text::{chars_of, extend, str_eq, string_of};

verus! {

broadcast use vstd::string::group_string_axioms;

/// A start failure that the known-good version may cure.
pub open spec fn fallback_eligible(f: Fault) -> bool {
    f is DshNotInstalled || f is Host
}

/// Whether a start failure is retried with the known-good version.
pub fn should_try_known_good_fallback(error: &LauncherError) -> (r: bool)
    ensures
        r == fallback_eligible(error@),
{
    match error {
        LauncherError::DshNotInstalled { .. } => true,
        LauncherError::Host(_) => true,
        _ => false,
    }
}

/// The next step of a start with fallback.
pub enum FallbackStep {
    /// The answer.
    Done(Result<String, LauncherError>),
    /// Roll back to the known-good version; the current version's error.
    Rollback(LauncherError),
    /// Start again, now with this known-good version.
    Retry(LauncherError, String),
}

/// The first start finished.
pub fn after_first_start(result: Result<String, LauncherError>) -> (r: FallbackStep)
    ensures
        match result {
            Ok(o) => r matches FallbackStep::Done(Ok(x)) && x == o,
            Err(e) => if fallback_eligible(e@) {
                r matches FallbackStep::Rollback(x) && x == e
            } else {
                r matches FallbackStep::Done(Err(x)) && x == e
            },
        },
{
    match result {
        Ok(o) => FallbackStep::Done(Ok(o)),
        Err(e) => {
            if should_try_known_good_fallback(&e) {
                FallbackStep::Rollback(e)
            } else {
                FallbackStep::Done(Err(e))
            }
        },
    }
}

/// The rollback finished: without a known-good version the current
/// version's error stands.
pub fn after_rollback(current_error: LauncherError, rollback: Result<Option<String>, LauncherError>) -> (r:
    FallbackStep)
    ensures
        match rollback {
            Err(e) => r matches FallbackStep::Done(Err(x)) && x == e,
            Ok(None) => r matches FallbackStep::Done(Err(x)) && x == current_error,
            Ok(Some(v)) => r matches FallbackStep::Retry(x, w) && x == current_error && w == v,
        },
{
    match rollback {
        Err(e) => FallbackStep::Done(Err(e)),
        Ok(None) => FallbackStep::Done(Err(current_error)),
        Ok(Some(v)) => FallbackStep::Retry(current_error, v),
    }
}

/// The retry with the known-good version finished; there is no further
/// retry.
pub fn after_retry(current_error: &LauncherError, version: &str, result: Result<String, LauncherError>) -> (r:
    Result<String, LauncherError>)
    ensures
        match result {
            Ok(o) => r == Ok::<String, LauncherError>(o),
            Err(e) => r matches Err(x) && x@ == Fault::Host(
                "current dsh failed: "@ + message_spec(current_error@) + "; known-good "@ + version@
                    + " also failed: "@ + message_spec(e@),
            ),
        },
{
    match result {
        Ok(o) => Ok(o),
        Err(e) => {
            let mut m = chars_of("current dsh failed: ");
            extend(&mut m, &chars_of(current_error.message().as_str()));
            extend(&mut m, &chars_of("; known-good "));
            extend(&mut m, &chars_of(version));
            extend(&mut m, &chars_of(" also failed: "));
            extend(&mut m, &chars_of(e.message().as_str()));
            Err(LauncherError::Host(string_of(&m)))
        },
    }
}

/// A startup rollback happens only with a known-good version other than
/// the current one.
pub open spec fn startup_rollback_applies(s: DshStateView) -> bool {
    s.known_good is Some && s.known_good != s.current
}

/// Rolls back to the known-good version at time `now` when there is one
/// besides current; returns the version now current, or `None` when nothing
/// was done.
pub fn rollback_startup_state(state: &mut AppState, dir: &mut DshDir, now: i128) -> (r: Result<
    Option<String>,
    LauncherError,
>)
    ensures
        !startup_rollback_applies(dsh_view(old(state).dsh)) ==> (r matches Ok(None) && *final(state)
            == *old(state) && final(dir)@ == old(dir)@),
        startup_rollback_applies(dsh_view(old(state).dsh)) ==> {
            &&& same_except_dsh_core(*old(state), *final(state))
            &&& match rollback_spec(dsh_view(old(state).dsh), old(dir)@, now) {
                Err(f) => r matches Err(e) && e@ == f && *final(state) == *old(state)
                    && final(dir)@ == old(dir)@,
                Ok((kg, s1, d1)) => r matches Ok(Some(k)) && k@ == kg && dsh_view(final(state).dsh)
                    == s1 && final(dir)@ == d1,
            }
        },
{
    let applies = match (&state.dsh.known_good, &state.dsh.current) {
        (None, _) => false,
        (Some(k), Some(c)) => !str_eq(k.as_str(), c.as_str()),
        (Some(_), None) => true,
    };
    if !applies {
        return Ok(None);
    }
    match rollback_to_known_good(state, dir, now) {
        Ok(v) => Ok(Some(v)),
        Err(e) => Err(e),
    }
}

/// The version the state calls current.
pub fn current_dsh_version(status: &StateStatus) -> (r: Result<String, LauncherError>)
    ensures
        match status {
            StateStatus::FirstRun => r matches Err(e) && e@ == Fault::DshNotInstalled(
                "state.json not found"@,
            ),
            StateStatus::Loaded(s) => match s.dsh.current {
                Some(c) => r == Ok::<String, LauncherError>(c),
                None => r matches Err(e) && e@ == Fault::DshNotInstalled(
                    "state.dsh.current is None"@,
                ),
            },
        },
{
    match status {
        StateStatus::FirstRun => Err(
            LauncherError::DshNotInstalled { reason: String::from_str("state.json not found") },
        ),
        StateStatus::Loaded(s) => match &s.dsh.current {
            Some(c) => Ok(c.clone()),
            None => Err(
                LauncherError::DshNotInstalled {
                    reason: String::from_str("state.dsh.current is None"),
                },
            ),
        },
    }
}

/// Rolls a failed update back to the known-good version at time `now`; the
/// state to save and the version now current.
pub fn rollback_failed_dsh_update(status: StateStatus, dir: &mut DshDir, now: i128) -> (r: Result<
    (AppState, String),
    LauncherError,
>)
    ensures
        status is FirstRun ==> (r matches Err(e) && e@ == Fault::DshNotInstalled(
            "state.json not found"@,
        ) && final(dir)@ == old(dir)@),
        status matches StateStatus::Loaded(s) ==> match rollback_spec(dsh_view(s.dsh), old(dir)@, now) {
            Err(f) => r matches Err(e) && e@ == f && final(dir)@ == old(dir)@,
            Ok((kg, s1, d1)) => r matches Ok((s2, k)) && k@ == kg && dsh_view(s2.dsh) == s1
                && same_except_dsh_core(s, s2) && final(dir)@ == d1,
        },
{
    let mut state = match status {
        StateStatus::FirstRun => {
            return Err(
                LauncherError::DshNotInstalled { reason: String::from_str("state.json not found") },
            );
        },
        StateStatus::Loaded(s) => s,
    };
    let version = rollback_to_known_good(&mut state, dir, now)?;
    Ok((state, version))
}

/// After an upgrade from `c` to `v` is promoted, a failed start rolls back:
/// the startup rollback applies, and it makes `c` current again, in the
/// state and in the pointer, with nothing known-good or pending left.
pub proof fn law_failed_start_after_upgrade_rolls_back(
    s: DshStateView,
    d: DshDirView,
    v: Seq<char>,
    c: Seq<char>,
    now1: i128,
    now2: i128,
)
    requires
        d.entries.contains(v),
        d.entries.contains(c),
        s.current == Some(c),
        c != v,
    ensures
        promote_spec(s, d, v, now1) matches Ok((s1, d1)) && {
            &&& startup_rollback_applies(s1)
            &&& rollback_spec(s1, d1, now2) matches Ok((k, s2, d2)) && k == c && s2.current
                == Some(c) && d2.current == Some(c) && s2.known_good is None && s2.pending is None
        },
{
    crate::dsh::version::law_rollback_undoes_promote(s, d, v, c, now1, now2);
}

/// A start that fails for another reason than a missing dsh or a host
/// failure is answered with that error and is not retried; a start that
/// succeeds is answered with its origin.
pub proof fn law_fallback_only_for_dsh_failures(f: Fault)
    ensures
        !(f is DshNotInstalled) && !(f is Host) ==> !fallback_eligible(f),
        f is DshNotInstalled ==> fallback_eligible(f),
        f is Host ==> fallback_eligible(f),
{
}

} // verus!
