//! Starting, restarting and stopping the host from the launcher: the spawn
//! options, the one retry with the known-good dsh, the status shown before
//! the host runs, and the restart after a dsh update.
pub mod fallback;
pub mod spawn;
pub mod status;

use vstd::prelude::*;

use crate::error::{kind_spec, message_spec, user_message_spec, data_spec, data_view, Fault, LauncherError, SerializableError};
use crate::host::supervisor::{host_message_spec, HostSupervisorError};
use crate::text::{chars_of, extend, string_of};

verus! {

broadcast use vstd::string::group_string_axioms;

/// A host error as the launcher reports it.
pub fn map_host_error(error: &HostSupervisorError) -> (r: LauncherError)
    ensures
        r@ == Fault::Host(host_message_spec(error@)),
{
    LauncherError::Host(error.message())
}

/// The answer to a restart after a dsh update.
#[derive(Debug, Clone, PartialEq, Eq)]
pub struct DshUpgradeRestartResult {
    pub origin: String,
    pub active_version: String,
    pub rolled_back: bool,
    /// Why the updated version did not start, when it was rolled back.
    pub start_error: Option<SerializableError>,
}

/// What follows the restart with the updated version.
pub enum UpdateRestartStep {
    /// The answer.
    Done(Result<DshUpgradeRestartResult, LauncherError>),
    /// Roll back to the known-good version and restart once more.
    RollBack(LauncherError),
}

/// The restart with the updated (`active_version`) dsh finished.
pub fn after_update_restart(active_version: String, restart: Result<String, LauncherError>) -> (r:
    UpdateRestartStep)
    ensures
        match restart {
            Ok(o) => r matches UpdateRestartStep::Done(Ok(x)) && x.origin == o && x.active_version
                == active_version && !x.rolled_back && x.start_error is None,
            Err(e) => r matches UpdateRestartStep::RollBack(x) && x == e,
        },
{
    match restart {
        Ok(origin) => UpdateRestartStep::Done(
            Ok(
                DshUpgradeRestartResult {
                    origin,
                    active_version,
                    rolled_back: false,
                    start_error: None,
                },
            ),
        ),
        Err(e) => UpdateRestartStep::RollBack(e),
    }
}

/// The restart after rolling back to `active_version` finished: the
/// answer names the original failure, or both failures are reported.
pub fn after_update_rollback_restart(
    restart_error: &LauncherError,
    active_version: String,
    restart: Result<String, LauncherError>,
) -> (r: Result<DshUpgradeRestartResult, LauncherError>)
    ensures
        match restart {
            Ok(o) => r matches Ok(x) && x.origin == o && x.active_version == active_version
                && x.rolled_back && (x.start_error matches Some(se) && se.kind@ == kind_spec(
                restart_error@,
            ) && se.message@ == message_spec(restart_error@) && se.user_message@
                == user_message_spec(restart_error@)),
            Err(e) => r matches Err(x) && x@ == Fault::Host(
                "dsh update restart failed: "@ + message_spec(restart_error@)
                    + "; rollback restart failed: "@ + message_spec(e@),
            ),
        },
{
    match restart {
        Ok(origin) => Ok(
            DshUpgradeRestartResult {
                origin,
                active_version,
                rolled_back: true,
                start_error: Some(restart_error.to_serializable()),
            },
        ),
        Err(e) => {
            let mut m = chars_of("dsh update restart failed: ");
            extend(&mut m, &chars_of(restart_error.message().as_str()));
            extend(&mut m, &chars_of("; rollback restart failed: "));
            extend(&mut m, &chars_of(e.message().as_str()));
            Err(LauncherError::Host(string_of(&m)))
        },
    }
}

} // verus!
