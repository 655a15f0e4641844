//! The "about" panel: the launcher's version, the managed dsh and Node
//! versions, and the data directory.
use vstd::prelude::*;

use crate::state::{opt_str, StateStatus};

verus! {

broadcast use vstd::string::group_string_axioms;

/// What the about panel shows.
#[derive(Debug, Clone, PartialEq, Eq)]
pub struct AboutInfo {
    pub launcher_version: String,
    pub dsh_version: Option<String>,
    pub node_version: Option<String>,
    pub data_directory: String,
}

/// The about panel's content; a first run has no managed versions.
pub fn build_about_info(state: &StateStatus, data_directory: &str, launcher_version: &str) -> (r:
    AboutInfo)
    ensures
        r.launcher_version@ == launcher_version@,
        r.data_directory@ == data_directory@,
        match state {
            StateStatus::FirstRun => r.dsh_version is None && r.node_version is None,
            StateStatus::Loaded(s) => opt_str(r.dsh_version) == opt_str(s.dsh.current)
                && opt_str(r.node_version) == match s.node {
                Some(n) => Some(n.version@),
                None => None,
            },
        },
{
    let (dsh_version, node_version) = match state {
        StateStatus::FirstRun => (None, None),
        StateStatus::Loaded(s) => {
            let d = match &s.dsh.current {
                Some(c) => Some(c.clone()),
                None => None,
            };
            let n = match &s.node {
                Some(n) => Some(n.version.clone()),
                None => None,
            };
            (d, n)
        },
    };
    AboutInfo {
        launcher_version: String::from_str(launcher_version),
        dsh_version,
        node_version,
        data_directory: String::from_str(data_directory),
    }
}

} // verus!
