//! Whether a newer dsh should be offered: at most once per check interval,
//! the registry's `latest` must fall in the pinned range, differ from the
//! current version, not be ignored, and suit the installed Node.
use vstd::prelude::*;

use crate::host::crash::NANOS_PER_SEC;

use crate::dsh::registry::{manifest_for_spec, MetadataView, PackageManifest, PackageMetadata};
use crate::dsh::version::{names, set_pending};
use crate::error::{Fault, LauncherError};
use crate::state::{opt_str, AppState};
use crate::text::{chars_of, extend, str_eq, string_of};
use crate::versions::{
    current_node_satisfies, node_satisfies_spec, parse_version, parse_version_req, req_matches,
    semver_req_matches, semver_req_parse, semver_version_parse,
};

verus! {

broadcast use vstd::string::group_string_axioms;

/// A dsh version that can be upgraded to.
#[derive(Debug, Clone, PartialEq, Eq)]
pub struct UpgradeCandidate {
    pub version: String,
    pub engines_node: String,
}

/// The next check is due: never checked, or the interval has passed.
pub open spec fn check_due_spec(last_check: Option<i128>, interval_hours: u32, now: i128) -> bool {
    match last_check {
        None => true,
        Some(last) => now - last >= interval_hours * 3600 * NANOS_PER_SEC,
    }
}

/// Whether the registry should be asked again at `now` (nanoseconds since
/// the Unix epoch).
pub fn upgrade_check_due(last_check: Option<i128>, interval_hours: u32, now: i128) -> (r: bool)
    ensures
        r == check_due_spec(last_check, interval_hours, now),
{
    match last_check {
        None => true,
        Some(last) => match now.checked_sub(last) {
            Some(elapsed) => elapsed >= (interval_hours as i128) * 3600 * NANOS_PER_SEC,
            None => now > last,
        },
    }
}

/// Without an earlier check one is due; after one, the next is due exactly
/// when `interval_hours` hours (3 600 000 000 000 nanoseconds each) have
/// passed, and from then on it stays due.
pub proof fn law_check_interval_in_hours(last: i128, interval_hours: u32, now: i128, later: i128)
    ensures
        check_due_spec(None, interval_hours, now),
        check_due_spec(Some(last), interval_hours, now) <==> now - last >= interval_hours
            * 3_600_000_000_000,
        interval_hours > 0 && now - last < 3_600_000_000_000 ==> !check_due_spec(
            Some(last),
            interval_hours,
            now,
        ),
        check_due_spec(Some(last), interval_hours, now) && later >= now ==> check_due_spec(
            Some(last),
            interval_hours,
            later,
        ),
{
}

/// The decision on the registry's metadata: an error, no upgrade, or the
/// candidate's version and `engines.node`.
pub open spec fn evaluate_upgrade_spec(s: AppState, m: MetadataView) -> Result<
    Option<(Seq<char>, Seq<char>)>,
    Fault,
> {
    let latest = m.latest;
    let pinned = s.dsh.pinned_range@;
    match semver_version_parse(latest) {
        Err(e) => Err(Fault::DshVersion("invalid latest version '"@ + latest + "': "@ + e)),
        Ok(_) => match semver_req_parse(pinned) {
            Err(e) => Err(Fault::DshVersion("invalid pinned_range '"@ + pinned + "': "@ + e)),
            Ok(_) => if !semver_req_matches(pinned, latest) {
                Ok(None)
            } else if opt_str(s.dsh.current) == Some(latest) {
                Ok(None)
            } else if names(s.dsh.ignored_versions@).contains(latest) {
                Ok(None)
            } else {
                match manifest_for_spec(m, latest) {
                    Err(f) => Err(f),
                    Ok(man) => if man.engines.node@.len() == 0 {
                        Ok(Some((latest, man.engines.node@)))
                    } else {
                        match node_satisfies_spec(
                            match s.node {
                                Some(n) => Some(n.version@),
                                None => None,
                            },
                            man.engines.node@,
                        ) {
                            Err(f) => Err(f),
                            Ok(false) => Ok(None),
                            Ok(true) => Ok(Some((latest, man.engines.node@))),
                        }
                    },
                }
            },
        },
    }
}

fn contains_name(v: &Vec<String>, x: &str) -> (r: bool)
    ensures
        r == names(v@).contains(x@),
{
    for i in 0..v.len()
        invariant
            forall|k: int| 0 <= k < i ==> v@[k]@ != x@,
    {
        if str_eq(v[i].as_str(), x) {
            assert(names(v@)[i as int] == x@);
            return true;
        }
    }
    assert(!names(v@).contains(x@)) by {
        if names(v@).contains(x@) {
            let k = choose|k: int| 0 <= k < names(v@).len() && names(v@)[k] == x@;
            assert(v@[k]@ == x@);
        }
    }
    false
}

fn fault_text(prefix: &str, subject: &str, detail: &str) -> (r: String)
    ensures
        r@ == prefix@ + subject@ + "': "@ + detail@,
{
    let mut m = chars_of(prefix);
    extend(&mut m, &chars_of(subject));
    extend(&mut m, &chars_of("': "));
    extend(&mut m, &chars_of(detail));
    string_of(&m)
}

/// Decides, on the registry's metadata, whether `latest` is an upgrade.
pub fn evaluate_upgrade(state: &AppState, metadata: &PackageMetadata) -> (r: Result<
    Option<UpgradeCandidate>,
    LauncherError,
>)
    ensures
        match evaluate_upgrade_spec(*state, metadata@) {
            Err(f) => r matches Err(e) && e@ == f,
            Ok(None) => r matches Ok(None),
            Ok(Some((v, n))) => r matches Ok(Some(c)) && c.version@ == v && c.engines_node@ == n,
        },
{
    let latest = metadata.dist_tags.latest.as_str();
    let latest_version = match parse_version(latest) {
        Ok(v) => v,
        Err(e) => {
            return Err(
                LauncherError::DshVersion(fault_text("invalid latest version '", latest, e.as_str())),
            );
        },
    };
    let pinned = state.dsh.pinned_range.as_str();
    let req = match parse_version_req(pinned) {
        Ok(r) => r,
        Err(e) => {
            return Err(
                LauncherError::DshVersion(fault_text("invalid pinned_range '", pinned, e.as_str())),
            );
        },
    };
    if !req_matches(&req, &latest_version) {
        return Ok(None);
    }
    let is_current = match &state.dsh.current {
        Some(c) => str_eq(c.as_str(), latest),
        None => false,
    };
    if is_current {
        return Ok(None);
    }
    if contains_name(&state.dsh.ignored_versions, latest) {
        return Ok(None);
    }
    let manifest = metadata.manifest_for(latest)?;
    if chars_of(manifest.engines.node.as_str()).len() == 0 {
        return Ok(
            Some(
                UpgradeCandidate {
                    version: metadata.dist_tags.latest.clone(),
                    engines_node: manifest.engines.node.clone(),
                },
            ),
        );
    }
    let current_node = match &state.node {
        Some(n) => Some(n.version.as_str()),
        None => None,
    };
    let satisfied = current_node_satisfies(current_node, manifest.engines.node.as_str())?;
    if !satisfied {
        return Ok(None);
    }
    Ok(
        Some(
            UpgradeCandidate {
                version: metadata.dist_tags.latest.clone(),
                engines_node: manifest.engines.node.clone(),
            },
        ),
    )
}

/// After the candidate was installed: it is pending, and the check is
/// recorded at `now`.
pub fn record_prepared_upgrade(state: &mut AppState, candidate: &UpgradeCandidate, now: i128)
    ensures
        opt_str(final(state).dsh.pending) == Some(candidate.version@),
        final(state).dsh.last_check == Some(now),
        final(state).dsh.current == old(state).dsh.current,
        final(state).dsh.known_good == old(state).dsh.known_good,
        final(state).node == old(state).node,
{
    set_pending(state, candidate.version.as_str());
    state.dsh.last_check = Some(now);
}

/// An offered upgrade is never the current version, never an ignored one,
/// and always in the pinned range.
pub proof fn law_offered_upgrade_is_new_and_allowed(s: AppState, m: MetadataView)
    ensures
        evaluate_upgrade_spec(s, m) matches Ok(Some((v, _))) ==> {
            &&& v == m.latest
            &&& opt_str(s.dsh.current) != Some(v)
            &&& !names(s.dsh.ignored_versions@).contains(v)
            &&& semver_req_matches(s.dsh.pinned_range@, v)
        },
{
}

} // verus!
