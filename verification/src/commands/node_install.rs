//! The managed Node runtime from the launcher: what an installation records,
//! the transaction that lets a Node upgrade be rolled back, and the Node
//! version an update targets.
use vstd::prelude::*;

use crate::error::{Fault, LauncherError};
use crate::state::{copy_opt, opt_str, AppState, NodeState, StateStatus};
use crate::text::{chars_of, extend, str_eq, string_of, trim, trim_exec};
use crate::versions::{node_newer_spec, node_version_newer, semver_version_gt, strip_v};

verus! {

broadcast use vstd::string::group_string_axioms;

/// What the frontend asks to install.
#[derive(Debug, Clone, PartialEq, Eq)]
pub struct InstallNodeArgs {
    pub version: String,
    pub operation_id: String,
    pub mirror_base_url: String,
    pub platform: String,
    pub arch: String,
}

/// The Node version an update would install.
#[derive(Debug, Clone, PartialEq, Eq)]
pub struct NodeUpdateTarget {
    pub current_version: String,
    pub target_version: String,
    pub engines_node: Option<String>,
    /// `dsh-engines` or `launcher-verified-fallback`.
    pub target_source: String,
    pub update_available: bool,
}

/// What is needed to undo a Node upgrade.
#[derive(Debug, Clone, PartialEq, Eq)]
pub struct NodeUpgradeTransaction {
    pub upgraded_node: String,
    pub previous_node: NodeState,
    pub previous_node_mirror: Option<String>,
}

/// After an installation of `version` from `mirror` at `now`: the runtime
/// is recorded, the mirror remembered, and a bootstrap plan moves on.
pub fn record_node_installed(state: &mut AppState, version: &str, mirror: &str, now: i128)
    ensures
        final(state).node matches Some(n) && n.version@ == version@ && n.installed_at == now
            && n.mirror@ == mirror@,
        opt_str(final(state).node_mirror) == Some(mirror@),
        match old(state).bootstrap_plan {
            Some(p) => final(state).bootstrap_plan matches Some(q) && q.phase@ == "node_installed"@
                && q.dsh_version == p.dsh_version && q.registry == p.registry && q.engines_node
                == p.engines_node && q.node_version == p.node_version,
            None => final(state).bootstrap_plan is None,
        },
        final(state).dsh == old(state).dsh,
{
    state.node = Some(
        NodeState {
            version: String::from_str(version),
            installed_at: now,
            mirror: String::from_str(mirror),
        },
    );
    state.node_mirror = Some(String::from_str(mirror));
    match &mut state.bootstrap_plan {
        Some(plan) => {
            plan.phase = String::from_str("node_installed");
        },
        None => {},
    }
}

/// The runtime an upgrade starts from and the mirror it downloads from (the
/// chosen mirror, else the runtime's own).
pub fn upgrade_base(status: &StateStatus) -> (r: Result<(NodeState, String), LauncherError>)
    ensures
        match status {
            StateStatus::FirstRun => r matches Err(e) && e@ == Fault::NodeNotInstalled(
                "cannot upgrade Node before the first-run runtime exists"@,
            ),
            StateStatus::Loaded(s) => match s.node {
                None => r matches Err(e) && e@ == Fault::NodeNotInstalled(
                    "cannot upgrade Node before a managed runtime exists"@,
                ),
                Some(n) => r matches Ok((p, m)) && p == n && m@ == match s.node_mirror {
                    Some(x) => x@,
                    None => n.mirror@,
                },
            },
        },
{
    let s = match status {
        StateStatus::FirstRun => {
            return Err(
                LauncherError::NodeNotInstalled {
                    reason: String::from_str(
                        "cannot upgrade Node before the first-run runtime exists",
                    ),
                },
            );
        },
        StateStatus::Loaded(s) => s,
    };
    let node = match &s.node {
        None => {
            return Err(
                LauncherError::NodeNotInstalled {
                    reason: String::from_str("cannot upgrade Node before a managed runtime exists"),
                },
            );
        },
        Some(n) => n.copy(),
    };
    let mirror = match &s.node_mirror {
        Some(m) => m.clone(),
        None => node.mirror.clone(),
    };
    Ok((node, mirror))
}

/// The error a stale rollback is refused with.
pub open spec fn stale_rollback_fault(active: Option<Seq<char>>, expected: Seq<char>) -> Fault {
    Fault::NodeVersion(
        "refusing stale Node rollback: active version is "@ + match active {
            Some(a) => a,
            None => "none"@,
        } + ", expected "@ + expected,
    )
}

/// Undoes a Node upgrade in the state: only when the active runtime is the
/// upgraded one; then the previous runtime and mirror are back.
pub fn restore_node_state(state: &mut AppState, transaction: &NodeUpgradeTransaction) -> (r: Result<
    (),
    LauncherError,
>)
    ensures
        ({
            let active = match old(state).node {
                Some(n) => Some(n.version@),
                None => None,
            };
            if active == Some(transaction.upgraded_node@) {
                r is Ok && *final(state) == (AppState {
                    node: Some(transaction.previous_node),
                    node_mirror: transaction.previous_node_mirror,
                    ..*old(state)
                })
            } else {
                r matches Err(e) && e@ == stale_rollback_fault(active, transaction.upgraded_node@)
                    && *final(state) == *old(state)
            }
        }),
{
    let matches = match &state.node {
        Some(n) => str_eq(n.version.as_str(), transaction.upgraded_node.as_str()),
        None => false,
    };
    if !matches {
        let mut m = chars_of("refusing stale Node rollback: active version is ");
        match &state.node {
            Some(n) => extend(&mut m, &chars_of(n.version.as_str())),
            None => extend(&mut m, &chars_of("none")),
        }
        extend(&mut m, &chars_of(", expected "));
        extend(&mut m, &chars_of(transaction.upgraded_node.as_str()));
        return Err(LauncherError::NodeVersion(string_of(&m)));
    }
    state.node = Some(transaction.previous_node.copy());
    state.node_mirror = copy_opt(&transaction.previous_node_mirror);
    Ok(())
}

/// The transaction for an upgrade from the state's runtime to `upgraded`.
pub fn node_upgrade_transaction(state: &AppState, previous: NodeState, upgraded: String) -> (r:
    NodeUpgradeTransaction)
    ensures
        r.upgraded_node == upgraded,
        r.previous_node == previous,
        r.previous_node_mirror == state.node_mirror,
{
    NodeUpgradeTransaction {
        upgraded_node: upgraded,
        previous_node: previous,
        previous_node_mirror: copy_opt(&state.node_mirror),
    }
}

/// The runtime and the dsh version an update targets, from the state.
pub fn update_target_base(status: &StateStatus) -> (r: Result<(NodeState, String), LauncherError>)
    ensures
        match status {
            StateStatus::FirstRun => r matches Err(e) && e@ == Fault::NodeNotInstalled(
                "cannot update Node before the first-run runtime exists"@,
            ),
            StateStatus::Loaded(s) => match s.node {
                None => r matches Err(e) && e@ == Fault::NodeNotInstalled(
                    "cannot update Node before a managed runtime exists"@,
                ),
                Some(n) => match s.dsh.current {
                    None => r matches Err(e) && e@ == Fault::DshNotInstalled(
                        "cannot select a compatible Node version without an installed dsh"@,
                    ),
                    Some(c) => r matches Ok((p, d)) && p == n && d == c,
                },
            },
        },
{
    let s = match status {
        StateStatus::FirstRun => {
            return Err(
                LauncherError::NodeNotInstalled {
                    reason: String::from_str("cannot update Node before the first-run runtime exists"),
                },
            );
        },
        StateStatus::Loaded(s) => s,
    };
    let node = match &s.node {
        None => {
            return Err(
                LauncherError::NodeNotInstalled {
                    reason: String::from_str("cannot update Node before a managed runtime exists"),
                },
            );
        },
        Some(n) => n.copy(),
    };
    match &s.dsh.current {
        None => Err(
            LauncherError::DshNotInstalled {
                reason: String::from_str(
                    "cannot select a compatible Node version without an installed dsh",
                ),
            },
        ),
        Some(c) => Ok((node, c.clone())),
    }
}

/// The requirement an update follows: the manifest's (trimmed) when it
/// states one.
pub fn update_requirement(engines_node: &str) -> (r: Option<String>)
    ensures
        trim(engines_node@).len() == 0 ==> r is None,
        trim(engines_node@).len() > 0 ==> (r matches Some(x) && x@ == trim(engines_node@)),
{
    let t = trim_exec(&chars_of(engines_node));
    if t.len() == 0 {
        None
    } else {
        Some(string_of(&t))
    }
}

/// The update target: the version resolved for the requirement (or the
/// launcher's verified fallback when there is none), and whether it is
/// newer than the current runtime.
pub fn node_update_target(
    current_version: &str,
    requirement: Option<String>,
    target_version: String,
) -> (r: Result<NodeUpdateTarget, LauncherError>)
    ensures
        match node_newer_spec(target_version@, current_version@) {
            Err(f) => r matches Err(e) && e@ == f,
            Ok(newer) => r matches Ok(t) && t.current_version@ == current_version@
                && t.target_version == target_version && t.engines_node == requirement
                && t.target_source@ == (if requirement is Some {
                "dsh-engines"@
            } else {
                "launcher-verified-fallback"@
            }) && t.update_available == newer,
        },
        r matches Ok(t) ==> t.update_available == semver_version_gt(
            strip_v(target_version@),
            strip_v(current_version@),
        ),
{
    let update_available = node_version_newer(target_version.as_str(), current_version)?;
    let source = if requirement.is_some() {
        "dsh-engines"
    } else {
        "launcher-verified-fallback"
    };
    Ok(
        NodeUpdateTarget {
            current_version: String::from_str(current_version),
            target_version,
            engines_node: requirement,
            target_source: String::from_str(source),
            update_available,
        },
    )
}

/// What follows a Node download and extraction.
#[derive(Debug, Clone, PartialEq, Eq)]
pub enum NodeInstallStep {
    /// Record the runtime.
    Finish,
    /// The user cancelled after extraction: remove the installed runtime and
    /// the download, then answer with the cancellation.
    CleanupInstalledThenCancel,
    /// Cancelled during the work: remove the download and staging, then
    /// answer with the cancellation.
    CleanupArtifactsThenCancel,
    /// Answer with this error.
    Fail(LauncherError),
}

/// Decides on a download and extraction's result, and on whether the
/// installation was cancelled meanwhile.
pub fn after_node_install(result: Result<(), LauncherError>, cancelled: bool) -> (r:
    NodeInstallStep)
    ensures
        match result {
            Ok(_) => if cancelled {
                r == NodeInstallStep::CleanupInstalledThenCancel
            } else {
                r == NodeInstallStep::Finish
            },
            Err(e) => if e@ is NodeInstallCancelled || cancelled {
                r == NodeInstallStep::CleanupArtifactsThenCancel
            } else {
                r == NodeInstallStep::Fail(e)
            },
        },
{
    match result {
        Ok(_) => {
            if cancelled {
                NodeInstallStep::CleanupInstalledThenCancel
            } else {
                NodeInstallStep::Finish
            }
        },
        Err(e) => {
            let was_cancel = match &e {
                LauncherError::NodeInstallCancelled { .. } => true,
                _ => false,
            };
            if was_cancel || cancelled {
                NodeInstallStep::CleanupArtifactsThenCancel
            } else {
                NodeInstallStep::Fail(e)
            }
        },
    }
}

} // verus!
