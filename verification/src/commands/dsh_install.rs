//! Installing dsh from the launcher: which version, whether the installed
//! Node suits it, the progress stages shown while npm runs, and what the
//! state records when it is done.
use vstd::prelude::*;

use crate::dsh::registry::PackageManifest;
use crate::dsh::version::{promote_to_current, promote_spec, dsh_view, DshDir, DshDirView, DshStateView};
use crate::error::{Fault, LauncherError};
use crate::state::{copy_opt, opt_str, AppState, BootstrapPlan, NodeState, StateStatus};
use crate::text::{chars_of, contains, contains_str, extend, string_of, str_eq, trim, trim_exec};
use crate::versions::{current_node_satisfies, node_satisfies_spec};

verus! {

broadcast use vstd::string::group_string_axioms;

/// A progress event of an installation.
#[derive(Debug, Clone, PartialEq, Eq)]
pub struct DshInstallProgressPayload {
    pub stage: &'static str,
}

/// The stage an npm output line announces.
pub open spec fn stage_spec(line: Seq<char>) -> Option<Seq<char>> {
    if contains(line, "npm http fetch"@) {
        Some("downloading"@)
    } else if contains(line, "npm info run"@) {
        Some("installing"@)
    } else {
        None
    }
}

/// Maps an npm output line to the stage it announces: fetching is
/// downloading, running scripts is installing.
pub fn dsh_install_stage_from_npm_log(line: &str) -> (r: Option<&'static str>)
    ensures
        match stage_spec(line@) {
            Some(s) => r matches Some(x) && x@ == s,
            None => r is None,
        },
{
    let l = chars_of(line);
    if contains_str(&l, "npm http fetch") {
        Some("downloading")
    } else if contains_str(&l, "npm info run") {
        Some("installing")
    } else {
        None
    }
}

/// The version to install: the bootstrap plan's frozen version (which an
/// expected version must equal), else the version the user was shown.
pub open spec fn selected_version_spec(plan: Option<Seq<char>>, expected: Option<Seq<char>>) -> Result<
    Seq<char>,
    Fault,
> {
    match plan {
        Some(p) => match expected {
            Some(e) => if e != p {
                Err(
                    Fault::DshRegistry(
                        "expected dsh "@ + e + " does not match frozen bootstrap version "@ + p,
                    ),
                )
            } else {
                Ok(p)
            },
            None => Ok(p),
        },
        None => match expected {
            Some(e) => Ok(e),
            None => Err(
                Fault::DshRegistry("select a displayed dsh version before starting an update"@),
            ),
        },
    }
}

/// Chooses the version to install.
pub fn selected_install_version(
    bootstrap_plan: Option<&BootstrapPlan>,
    expected_version: Option<&str>,
) -> (r: Result<String, LauncherError>)
    ensures
        match selected_version_spec(
            match bootstrap_plan {
                Some(p) => Some(p.dsh_version@),
                None => None,
            },
            match expected_version {
                Some(e) => Some(e@),
                None => None,
            },
        ) {
            Ok(v) => r matches Ok(s) && s@ == v,
            Err(f) => r matches Err(e) && e@ == f,
        },
{
    match bootstrap_plan {
        Some(plan) => {
            match expected_version {
                Some(expected) => {
                    if !str_eq(expected, plan.dsh_version.as_str()) {
                        let mut m = chars_of("expected dsh ");
                        extend(&mut m, &chars_of(expected));
                        extend(&mut m, &chars_of(" does not match frozen bootstrap version "));
                        extend(&mut m, &chars_of(plan.dsh_version.as_str()));
                        return Err(LauncherError::DshRegistry(string_of(&m)));
                    }
                },
                None => {},
            }
            Ok(plan.dsh_version.clone())
        },
        None => match expected_version {
            Some(e) => Ok(String::from_str(e)),
            None => Err(
                LauncherError::DshRegistry(
                    String::from_str("select a displayed dsh version before starting an update"),
                ),
            ),
        },
    }
}

/// Whether the installed Node suits the manifest: with a bootstrap plan,
/// the manifest's requirement must be the one the plan froze, and the Node
/// must satisfy it; without one, the Node must satisfy the manifest's.
pub open spec fn node_compatible_spec(
    plan_engines: Option<Option<Seq<char>>>,
    engines: Seq<char>,
    node_version: Seq<char>,
    dsh_version: Seq<char>,
) -> Result<(), Fault> {
    match plan_engines {
        Some(frozen) => {
            let manifest_engines = if trim(engines).len() > 0 {
                Some(engines)
            } else {
                None
            };
            if manifest_engines != frozen {
                Err(
                    Fault::DshRegistry(
                        "frozen dsh "@ + dsh_version
                            + " manifest engines.node changed after bootstrap resolution"@,
                    ),
                )
            } else {
                match frozen {
                    None => Ok(()),
                    Some(req) => match node_satisfies_spec(Some(node_version), req) {
                        Err(f) => Err(f),
                        Ok(true) => Ok(()),
                        Ok(false) => Err(
                            Fault::NodeVersion(
                                "installed Node "@ + node_version
                                    + " does not satisfy frozen dsh requirement "@ + req,
                            ),
                        ),
                    },
                }
            }
        },
        None => if trim(engines).len() == 0 {
            Ok(())
        } else {
            match node_satisfies_spec(Some(node_version), engines) {
                Err(f) => Err(f),
                Ok(true) => Ok(()),
                Ok(false) => Err(
                    Fault::NodeVersion(
                        "dsh "@ + dsh_version + " requires Node "@ + engines
                            + ", current version is "@ + node_version,
                    ),
                ),
            }
        },
    }
}

/// Refuses an installation whose Node requirement the installed Node does
/// not meet, before anything is changed.
pub fn ensure_node_compatible(
    bootstrap_plan: Option<&BootstrapPlan>,
    manifest: &PackageManifest,
    node_version: &str,
    dsh_version: &str,
) -> (r: Result<(), LauncherError>)
    ensures
        match node_compatible_spec(
            match bootstrap_plan {
                Some(p) => Some(opt_str(p.engines_node)),
                None => None,
            },
            manifest.engines.node@,
            node_version@,
            dsh_version@,
        ) {
            Ok(_) => r is Ok,
            Err(f) => r matches Err(e) && e@ == f,
        },
{
    let engines = manifest.engines.node.as_str();
    let engines_blank = trim_exec(&chars_of(engines)).len() == 0;
    match bootstrap_plan {
        Some(plan) => {
            let same = match &plan.engines_node {
                Some(frozen) => !engines_blank && str_eq(engines, frozen.as_str()),
                None => engines_blank,
            };
            if !same {
                let mut m = chars_of("frozen dsh ");
                extend(&mut m, &chars_of(dsh_version));
                extend(&mut m, &chars_of(" manifest engines.node changed after bootstrap resolution"));
                return Err(LauncherError::DshRegistry(string_of(&m)));
            }
            match &plan.engines_node {
                None => Ok(()),
                Some(req) => {
                    if current_node_satisfies(Some(node_version), req.as_str())? {
                        Ok(())
                    } else {
                        let mut m = chars_of("installed Node ");
                        extend(&mut m, &chars_of(node_version));
                        extend(&mut m, &chars_of(" does not satisfy frozen dsh requirement "));
                        extend(&mut m, &chars_of(req.as_str()));
                        Err(LauncherError::NodeVersion(string_of(&m)))
                    }
                },
            }
        },
        None => {
            if engines_blank {
                return Ok(());
            }
            if current_node_satisfies(Some(node_version), engines)? {
                Ok(())
            } else {
                let mut m = chars_of("dsh ");
                extend(&mut m, &chars_of(dsh_version));
                extend(&mut m, &chars_of(" requires Node "));
                extend(&mut m, &chars_of(engines));
                extend(&mut m, &chars_of(", current version is "));
                extend(&mut m, &chars_of(node_version));
                Err(LauncherError::NodeVersion(string_of(&m)))
            }
        },
    }
}

/// The state and the managed Node an installation starts from.
pub fn install_preconditions(status: StateStatus) -> (r: Result<
    (AppState, NodeState),
    LauncherError,
>)
    ensures
        match status {
            StateStatus::FirstRun => r matches Err(e) && e@ == Fault::NodeNotInstalled(
                "state.json not found; complete first-run wizard first"@,
            ),
            StateStatus::Loaded(s) => match s.node {
                None => r matches Err(e) && e@ == Fault::NodeNotInstalled(
                    "state.node is None; complete first-run wizard first"@,
                ),
                Some(n) => r matches Ok((s2, n2)) && s2 == s && n2 == n,
            },
        },
{
    let state = match status {
        StateStatus::FirstRun => {
            return Err(
                LauncherError::NodeNotInstalled {
                    reason: String::from_str("state.json not found; complete first-run wizard first"),
                },
            );
        },
        StateStatus::Loaded(s) => s,
    };
    let node = match &state.node {
        None => {
            return Err(
                LauncherError::NodeNotInstalled {
                    reason: String::from_str("state.node is None; complete first-run wizard first"),
                },
            );
        },
        Some(n) => n.copy(),
    };
    Ok((state, node))
}

/// The error when the runtime's node binary is missing.
pub fn missing_node_binary(node_executable: &str, node_version: &str) -> (r: LauncherError)
    ensures
        r@ == Fault::NodeNotInstalled(
            "node binary not found: "@ + node_executable@ + " (VERSION says "@ + node_version@
                + " but binary missing)"@,
        ),
{
    let mut m = chars_of("node binary not found: ");
    extend(&mut m, &chars_of(node_executable));
    extend(&mut m, &chars_of(" (VERSION says "));
    extend(&mut m, &chars_of(node_version));
    extend(&mut m, &chars_of(" but binary missing)"));
    LauncherError::NodeNotInstalled { reason: string_of(&m) }
}

/// The registry to install from: the bootstrap plan's, else the state's.
pub fn install_registry(state: &AppState) -> (r: String)
    ensures
        r@ == match state.bootstrap_plan {
            Some(p) => p.registry@,
            None => state.dsh.registry@,
        },
{
    match &state.bootstrap_plan {
        Some(plan) => plan.registry.clone(),
        None => state.dsh.registry.clone(),
    }
}

/// After the files were installed and checked: the version is promoted to
/// current at time `now` and the bootstrap plan is done.
pub fn finish_dsh_install(
    state: &mut AppState,
    dir: &mut DshDir,
    version: &str,
    now: i128,
) -> (r: Result<
    (),
    LauncherError,
>)
    ensures
        !old(dir)@.entries.contains(version@) ==> r is Err && *final(state) == *old(state)
            && final(dir)@ == old(dir)@,
        old(dir)@.entries.contains(version@) ==> r is Ok && final(state).bootstrap_plan is None
            && opt_str(final(state).dsh.current) == Some(version@) && final(dir)@.current == Some(
            version@,
        ),
        promote_spec(dsh_view(old(state).dsh), old(dir)@, version@, now) matches Ok((s1, d1))
            ==> dsh_view(final(state).dsh) == s1 && final(dir)@ == d1,
{
    promote_to_current(state, dir, version, now)?;
    state.bootstrap_plan = None;
    Ok(())
}

} // verus!
