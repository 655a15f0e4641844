//! Settings: the dsh state shown in the settings page, and the choice of
//! Node mirror and npm registry (only the supported ones are accepted).
use vstd::prelude::*;

use crate::dsh::registry::{trim_end_slashes_spec};
use crate::error::{Fault, LauncherError};
use crate::mirrors::{builtin_mirror_urls, default_mirror_url, is_builtin_mirror};
use crate::state::{installed_view, opt_str, timestamp_text, timestamp_to_rfc3339, AppState, StateStatus};
use crate::text::{chars_of, slice_of, str_eq, string_of, trail_count2};

verus! {

broadcast use vstd::string::group_string_axioms;

/// One installed version as the settings page shows it.
#[derive(Debug, Clone, PartialEq, Eq)]
pub struct InstalledDshInfo {
    pub version: String,
    /// RFC 3339.
    pub installed_at: String,
    pub status: String,
}

/// The dsh state the settings page shows.
#[derive(Debug, Clone, PartialEq, Eq)]
pub struct DshStateSnapshot {
    pub current: Option<String>,
    pub known_good: Option<String>,
    pub node_mirror: String,
    pub registry: String,
    pub installed: Vec<InstalledDshInfo>,
}

pub open spec fn installed_info_view(v: Seq<InstalledDshInfo>) -> Seq<(Seq<char>, Seq<char>, Seq<char>)> {
    v.map_values(|i: InstalledDshInfo| (i.version@, i.installed_at@, i.status@))
}

/// The node mirror shown: the chosen one, else the runtime's, else the
/// default.
pub open spec fn shown_mirror(s: AppState) -> Seq<char> {
    match s.node_mirror {
        Some(m) => m@,
        None => match s.node {
            Some(n) => n.mirror@,
            None => builtin_mirror_urls()[0],
        },
    }
}

/// The settings page's view of the state.
pub fn get_dsh_state(status: &StateStatus) -> (r: DshStateSnapshot)
    ensures
        match status {
            StateStatus::FirstRun => r.current is None && r.known_good is None && r.node_mirror@
                == builtin_mirror_urls()[0] && r.registry@ == "https://registry.npmjs.org"@
                && r.installed@.len() == 0,
            StateStatus::Loaded(s) => {
                &&& r.current == s.dsh.current
                &&& r.known_good == s.dsh.known_good
                &&& r.node_mirror@ == shown_mirror(*s)
                &&& r.registry == s.dsh.registry
                &&& installed_info_view(r.installed@) == installed_view(s.dsh.installed).map_values(
                    |e: (Seq<char>, i128, Seq<char>)| (e.0, timestamp_text(e.1), e.2),
                )
            },
        },
{
    match status {
        StateStatus::FirstRun => DshStateSnapshot {
            current: None,
            known_good: None,
            node_mirror: String::from_str(default_mirror_url()),
            registry: String::from_str("https://registry.npmjs.org"),
            installed: Vec::new(),
        },
        StateStatus::Loaded(s) => {
            let node_mirror = match &s.node_mirror {
                Some(m) => m.clone(),
                None => match &s.node {
                    Some(n) => n.mirror.clone(),
                    None => String::from_str(default_mirror_url()),
                },
            };
            let ghost target = installed_view(s.dsh.installed).map_values(
                |e: (Seq<char>, i128, Seq<char>)| (e.0, timestamp_text(e.1), e.2),
            );
            let mut installed: Vec<InstalledDshInfo> = Vec::new();
            for i in 0..s.dsh.installed.len()
                invariant
                    target == installed_view(s.dsh.installed).map_values(
                        |e: (Seq<char>, i128, Seq<char>)| (e.0, timestamp_text(e.1), e.2),
                    ),
                    installed_info_view(installed@) == target.take(i as int),
            {
                let item = &s.dsh.installed[i];
                let ghost before = installed_info_view(installed@);
                installed.push(
                    InstalledDshInfo {
                        version: item.version.clone(),
                        installed_at: timestamp_to_rfc3339(item.installed_at),
                        status: item.status.clone(),
                    },
                );
                assert(installed_info_view(installed@) =~= before.push(target[i as int]));
                assert(target.take(i + 1) =~= target.take(i as int).push(target[i as int]));
            }
            assert(target.take(s.dsh.installed.len() as int) =~= target);
            DshStateSnapshot {
                current: crate::state::copy_opt(&s.dsh.current),
                known_good: crate::state::copy_opt(&s.dsh.known_good),
                node_mirror,
                registry: s.dsh.registry.clone(),
                installed,
            }
        },
    }
}

/// A Node mirror is accepted only when it is a built-in one.
pub fn validated_node_mirror(mirror: &str) -> (r: Result<String, LauncherError>)
    ensures
        builtin_mirror_urls().contains(mirror@) ==> (r matches Ok(m) && m@ == mirror@),
        !builtin_mirror_urls().contains(mirror@) ==> (r matches Err(e) && e@ == Fault::Mirror(
            "请选择受支持的 Node.js 下载源"@,
        )),
{
    if is_builtin_mirror(mirror) {
        Ok(String::from_str(mirror))
    } else {
        Err(LauncherError::Mirror(String::from_str("请选择受支持的 Node.js 下载源")))
    }
}

/// The supported npm registries (without trailing slashes).
pub open spec fn supported_registry(r: Seq<char>) -> bool {
    r == "https://registry.npmjs.org"@ || r == "https://registry.npmmirror.com"@
}

/// An npm registry is accepted only when it is a supported one; trailing
/// slashes are dropped.
pub fn validated_registry(registry: &str) -> (r: Result<String, LauncherError>)
    ensures
        supported_registry(trim_end_slashes_spec(registry@)) ==> (r matches Ok(x) && x@
            == trim_end_slashes_spec(registry@)),
        !supported_registry(trim_end_slashes_spec(registry@)) ==> (r matches Err(e) && e@
            == Fault::DshRegistry("请选择受支持的 npm 下载源"@)),
{
    let c = chars_of(registry);
    let n = trail_count2(&c, '/', '/');
    let t = slice_of(&c, 0, c.len() - n);
    assert(t@ =~= trim_end_slashes_spec(registry@));
    let ts = string_of(&t);
    if str_eq(ts.as_str(), "https://registry.npmjs.org") || str_eq(
        ts.as_str(),
        "https://registry.npmmirror.com",
    ) {
        Ok(ts)
    } else {
        Err(LauncherError::DshRegistry(String::from_str("请选择受支持的 npm 下载源")))
    }
}

/// Sets the Node mirror, when supported.
pub fn set_node_mirror(state: &mut AppState, mirror: &str) -> (r: Result<(), LauncherError>)
    ensures
        builtin_mirror_urls().contains(mirror@) ==> r is Ok && opt_str(final(state).node_mirror)
            == Some(mirror@) && final(state).dsh == old(state).dsh && final(state).node == old(state).node,
        !builtin_mirror_urls().contains(mirror@) ==> r is Err && *final(state) == *old(state),
{
    let m = validated_node_mirror(mirror)?;
    state.node_mirror = Some(m);
    Ok(())
}

/// Sets the npm registry (of the state and of a pending bootstrap plan),
/// when supported.
pub fn set_registry(state: &mut AppState, registry: &str) -> (r: Result<(), LauncherError>)
    ensures
        supported_registry(trim_end_slashes_spec(registry@)) ==> r is Ok && final(state).dsh.registry@
            == trim_end_slashes_spec(registry@) && match final(state).bootstrap_plan {
            Some(p) => p.registry@ == trim_end_slashes_spec(registry@),
            None => old(state).bootstrap_plan is None,
        } && final(state).dsh.current == old(state).dsh.current,
        !supported_registry(trim_end_slashes_spec(registry@)) ==> r is Err && *final(state) == *old(state),
{
    let r = validated_registry(registry)?;
    state.dsh.registry = r.clone();
    match &mut state.bootstrap_plan {
        Some(plan) => {
            plan.registry = r;
        },
        None => {},
    }
    Ok(())
}

} // verus!
