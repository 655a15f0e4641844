//! The launcher's status before the host runs: first run or idle, with the
//! versions that are ready to start.
use vstd::prelude::*;

use crate::state::{opt_str, AppState, StateStatus};
use crate::text::{chars_of, extend, str_eq, string_of};

verus! {

broadcast use vstd::string::group_string_axioms;

/// What the frontend is shown about the runtime.
#[derive(Debug, Clone, PartialEq, Eq)]
pub struct StatusSnapshot {
    /// `first_run` or `idle`.
    pub phase: String,
    pub host_origin: Option<String>,
    pub dsh_version: Option<String>,
    pub node_version: Option<String>,
    pub platform: String,
    pub arch: String,
}

/// The platform and architecture names of Node's archives for Rust's
/// `std::env::consts::OS` and `ARCH`.
pub fn host_platform_arch(os: &str, arch: &str) -> (r: (&'static str, &'static str))
    ensures
        r.0@ == (if os@ == "macos"@ {
            "darwin"@
        } else if os@ == "windows"@ {
            "win"@
        } else {
            "linux"@
        }),
        r.1@ == (if arch@ == "aarch64"@ {
            "arm64"@
        } else {
            "x64"@
        }),
{
    let platform = if str_eq(os, "macos") {
        "darwin"
    } else if str_eq(os, "windows") {
        "win"
    } else {
        "linux"
    };
    let a = if str_eq(arch, "aarch64") {
        "arm64"
    } else {
        "x64"
    };
    (platform, a)
}

/// The snapshot for versions that are ready: idle with both, first run
/// otherwise.
pub open spec fn snapshot_spec(
    dsh: Option<Seq<char>>,
    node: Option<Seq<char>>,
    platform: Seq<char>,
    arch: Seq<char>,
    r: StatusSnapshot,
) -> bool {
    &&& r.phase@ == (if dsh is Some && node is Some {
        "idle"@
    } else {
        "first_run"@
    })
    &&& r.host_origin is None
    &&& opt_str(r.dsh_version) == dsh
    &&& opt_str(r.node_version) == node
    &&& r.platform@ == platform
    &&& r.arch@ == arch
}

fn snapshot(dsh: Option<String>, node: Option<String>, platform: &str, arch: &str) -> (r:
    StatusSnapshot)
    ensures
        snapshot_spec(opt_str(dsh), opt_str(node), platform@, arch@, r),
{
    let phase = if dsh.is_some() && node.is_some() {
        "idle"
    } else {
        "first_run"
    };
    StatusSnapshot {
        phase: String::from_str(phase),
        host_origin: None,
        dsh_version: dsh,
        node_version: node,
        platform: String::from_str(platform),
        arch: String::from_str(arch),
    }
}

/// The status from the state alone.
pub fn build_status_snapshot(status: &StateStatus, platform: &str, arch: &str) -> (r:
    StatusSnapshot)
    ensures
        match status {
            StateStatus::FirstRun => snapshot_spec(None, None, platform@, arch@, r),
            StateStatus::Loaded(s) => snapshot_spec(
                opt_str(s.dsh.current),
                match s.node {
                    Some(n) => Some(n.version@),
                    None => None,
                },
                platform@,
                arch@,
                r,
            ),
        },
{
    match status {
        StateStatus::FirstRun => snapshot(None, None, platform, arch),
        StateStatus::Loaded(s) => {
            let node = match &s.node {
                Some(n) => Some(n.version.clone()),
                None => None,
            };
            let dsh = match &s.dsh.current {
                Some(c) => Some(c.clone()),
                None => None,
            };
            snapshot(dsh, node, platform, arch)
        },
    }
}

/// The managed Node is usable: the state records one, the runtime's
/// current directory is `node-v<version>` (its last component is given as
/// `node_dir_name`, `None` when the directory could not be found) and its
/// executable is a file.
pub open spec fn node_usable_spec(s: AppState, node_dir_name: Option<Seq<char>>, bin_is_file: bool) -> bool {
    match s.node {
        None => false,
        Some(n) => node_dir_name == Some("node-v"@ + n.version@) && bin_is_file,
    }
}

/// Whether the managed Node is usable.
pub fn managed_node_is_usable(state: &AppState, node_dir_name: Option<&str>, bin_is_file: bool) -> (r:
    bool)
    ensures
        r == node_usable_spec(
            *state,
            match node_dir_name {
                Some(n) => Some(n@),
                None => None,
            },
            bin_is_file,
        ),
{
    let node = match &state.node {
        None => return false,
        Some(n) => n,
    };
    let name = match node_dir_name {
        None => return false,
        Some(n) => n,
    };
    let mut expected = chars_of("node-v");
    extend(&mut expected, &chars_of(node.version.as_str()));
    let e = string_of(&expected);
    str_eq(name, e.as_str()) && bin_is_file
}

/// The status with the runtime checked: without a usable managed Node
/// nothing is ready; a missing dsh entry still counts as ready, so that
/// starting the host can fall back to the known-good version.
pub fn build_runtime_status_snapshot(
    status: &StateStatus,
    node_usable: bool,
    platform: &str,
    arch: &str,
) -> (r: StatusSnapshot)
    ensures
        match status {
            StateStatus::FirstRun => snapshot_spec(None, None, platform@, arch@, r),
            StateStatus::Loaded(s) => if node_usable {
                snapshot_spec(
                    opt_str(s.dsh.current),
                    match s.node {
                        Some(n) => Some(n.version@),
                        None => None,
                    },
                    platform@,
                    arch@,
                    r,
                )
            } else {
                snapshot_spec(None, None, platform@, arch@, r)
            },
        },
{
    match status {
        StateStatus::FirstRun => snapshot(None, None, platform, arch),
        StateStatus::Loaded(_) => {
            if node_usable {
                build_status_snapshot(status, platform, arch)
            } else {
                snapshot(None, None, platform, arch)
            }
        },
    }
}

} // verus!
