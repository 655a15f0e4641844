//! The first run's plan and the update notice: the dsh version to install
//! (the registry's `latest`, which must have a manifest), its Node
//! requirement, and whether a newer version is worth announcing.
use vstd::prelude::*;

use crate::dsh::registry::{manifest_for_spec, MetadataView, PackageMetadata};
use crate::error::{Fault, LauncherError};
use crate::mirrors::{builtin_mirror_urls, builtin_mirrors, Mirror};
use crate::state::{opt_str, timestamp_text, timestamp_to_rfc3339, AppState, BootstrapPlan};
use crate::text::{chars_of, str_eq, trim, trim_exec};

verus! {

broadcast use vstd::string::group_string_axioms;

/// A mirror as the frontend lists it.
#[derive(Debug, Clone, PartialEq, Eq)]
pub struct MirrorInfo {
    pub id: String,
    pub name: String,
    pub base_url: String,
    pub trusted: bool,
}

impl MirrorInfo {
    /// The mirror's fields as text.
    pub fn from_mirror(mirror: &Mirror) -> (r: Self)
        ensures
            r.id@ == mirror.id@,
            r.name@ == mirror.name@,
            r.base_url@ == mirror.base_url@,
            r.trusted == mirror.trusted,
    {
        MirrorInfo {
            id: String::from_str(mirror.id),
            name: String::from_str(mirror.name),
            base_url: String::from_str(mirror.base_url),
            trusted: mirror.trusted,
        }
    }
}

/// The built-in mirrors as the frontend lists them.
pub fn list_mirrors() -> (r: Vec<MirrorInfo>)
    ensures
        r@.len() == 2,
        forall|i: int| 0 <= i < 2 ==> r@[i].base_url@ == builtin_mirror_urls()[i] && r@[i].trusted,
{
    let mirrors = builtin_mirrors();
    let mut r: Vec<MirrorInfo> = Vec::new();
    let a = MirrorInfo::from_mirror(&mirrors[0]);
    let b = MirrorInfo::from_mirror(&mirrors[1]);
    r.push(a);
    r.push(b);
    assert(r@[0] == a && r@[1] == b);
    r
}

/// A bootstrap plan as the frontend receives it.
#[derive(Debug, Clone, PartialEq, Eq)]
pub struct BootstrapPlanInfo {
    pub dsh_version: String,
    pub registry: String,
    pub engines_node: Option<String>,
    pub node_version: String,
    pub requirement_source: String,
    /// RFC 3339.
    pub resolved_at: String,
    pub phase: String,
}

impl BootstrapPlanInfo {
    /// The plan with its time in RFC 3339.
    pub fn from_plan(plan: &BootstrapPlan) -> (r: Self)
        ensures
            r.dsh_version == plan.dsh_version,
            r.registry == plan.registry,
            r.engines_node == plan.engines_node,
            r.node_version == plan.node_version,
            r.requirement_source == plan.requirement_source,
            r.resolved_at@ == timestamp_text(plan.resolved_at),
            r.phase == plan.phase,
    {
        BootstrapPlanInfo {
            dsh_version: plan.dsh_version.clone(),
            registry: plan.registry.clone(),
            engines_node: match &plan.engines_node {
                Some(e) => Some(e.clone()),
                None => None,
            },
            node_version: plan.node_version.clone(),
            requirement_source: plan.requirement_source.clone(),
            resolved_at: timestamp_to_rfc3339(plan.resolved_at),
            phase: plan.phase.clone(),
        }
    }
}

/// The latest version the frontend shows.
#[derive(Debug, Clone, PartialEq, Eq)]
pub struct LatestDshVersion {
    pub latest_version: String,
}

/// An update to announce.
#[derive(Debug, Clone, PartialEq, Eq)]
pub struct DshUpdateInfo {
    pub current_version: String,
    pub latest_version: String,
}

/// The registry's `latest`, which must have a manifest.
pub open spec fn latest_spec(m: MetadataView) -> Result<Seq<char>, Fault> {
    match manifest_for_spec(m, m.latest) {
        Err(f) => Err(f),
        Ok(_) => Ok(m.latest),
    }
}

/// The registry's latest dsh version, refused when the metadata has no
/// manifest for it.
pub fn latest_dsh_version(metadata: &PackageMetadata) -> (r: Result<String, LauncherError>)
    ensures
        match latest_spec(metadata@) {
            Ok(v) => r matches Ok(s) && s@ == v,
            Err(f) => r matches Err(e) && e@ == f,
        },
{
    let version = metadata.dist_tags.latest.clone();
    metadata.manifest_for(version.as_str())?;
    Ok(version)
}

/// `latest` is worth announcing: it is not current and was not announced
/// last time.
pub open spec fn notify_spec(current: Seq<char>, last: Option<Seq<char>>, latest: Seq<char>) -> bool {
    current != latest && last != Some(latest)
}

/// Announces `latest` when it differs from the current version and was not
/// announced last time.
pub fn update_to_notify(
    current_version: &str,
    last_notified: Option<&str>,
    latest_version: &str,
) -> (r: Option<DshUpdateInfo>)
    ensures
        notify_spec(
            current_version@,
            match last_notified {
                Some(l) => Some(l@),
                None => None,
            },
            latest_version@,
        ) ==> (r matches Some(u) && u.current_version@ == current_version@ && u.latest_version@
            == latest_version@),
        !notify_spec(
            current_version@,
            match last_notified {
                Some(l) => Some(l@),
                None => None,
            },
            latest_version@,
        ) ==> r is None,
{
    let notified = match last_notified {
        Some(l) => str_eq(l, latest_version),
        None => false,
    };
    if !str_eq(current_version, latest_version) && !notified {
        Some(
            DshUpdateInfo {
                current_version: String::from_str(current_version),
                latest_version: String::from_str(latest_version),
            },
        )
    } else {
        None
    }
}

/// Remembers that an update was announced.
pub fn record_notified(state: &mut AppState, update: &DshUpdateInfo)
    ensures
        opt_str(final(state).dsh.last_notified) == Some(update.latest_version@),
        final(state).dsh.current == old(state).dsh.current,
        final(state).dsh.known_good == old(state).dsh.known_good,
        final(state).dsh.pending == old(state).dsh.pending,
{
    state.dsh.last_notified = Some(update.latest_version.clone());
}

/// The version a first run installs and its Node requirement (`None` when
/// the manifest states none).
pub fn bootstrap_target(metadata: &PackageMetadata) -> (r: Result<
    (String, Option<String>),
    LauncherError,
>)
    ensures
        match latest_spec(metadata@) {
            Err(f) => r matches Err(e) && e@ == f,
            Ok(v) => match manifest_for_spec(metadata@, v) {
                Ok(m) => r matches Ok((x, en)) && x@ == v && opt_str(en) == (if trim(
                    m.engines.node@,
                ).len() > 0 {
                    Some(m.engines.node@)
                } else {
                    None
                }),
                Err(_) => false,
            },
        },
{
    let version = latest_dsh_version(metadata)?;
    let manifest = metadata.manifest_for(version.as_str())?;
    let engines = if trim_exec(&chars_of(manifest.engines.node.as_str())).len() > 0 {
        Some(manifest.engines.node.clone())
    } else {
        None
    };
    Ok((version, engines))
}

/// The plan a first run resolved at `now`, with the Node version chosen for
/// the requirement and where that choice came from.
pub fn new_bootstrap_plan(
    dsh_version: String,
    registry: String,
    engines_node: Option<String>,
    node_version: String,
    requirement_source: String,
    now: i128,
) -> (r: BootstrapPlan)
    ensures
        r.dsh_version == dsh_version,
        r.registry == registry,
        r.engines_node == engines_node,
        r.node_version == node_version,
        r.requirement_source == requirement_source,
        r.resolved_at == now,
        r.phase@ == "resolved"@,
{
    BootstrapPlan {
        dsh_version,
        registry,
        engines_node,
        node_version,
        requirement_source,
        resolved_at: now,
        phase: String::from_str("resolved"),
    }
}

/// An update is announced at most once: once recorded as announced, the
/// same `latest` is not announced again; the current version is never
/// announced.
pub proof fn law_update_announced_once(current: Seq<char>, last: Option<Seq<char>>, latest: Seq<char>)
    ensures
        !notify_spec(current, Some(latest), latest),
        !notify_spec(latest, last, latest),
        last != Some(latest) && current != latest ==> notify_spec(current, last, latest),
{
}

} // verus!
