//! The launcher's persistent state (`state.json`), as the rest of the library
//! reads and changes it. Times are nanoseconds since the Unix epoch (UTC).
use vstd::prelude::*;

use crate::error::{Fault, LauncherError, EXPECTED_SCHEMA_VERSION};

verus! {

broadcast use vstd::string::group_string_axioms;

/// The npm registry a fresh state uses.
pub const DEFAULT_REGISTRY: &'static str = "https://registry.npmmirror.com";

/// Hours between two automatic update checks.
pub const DEFAULT_CHECK_INTERVAL_HOURS: u32 = 24;

/// One installed dsh version.
#[derive(Debug, Clone, PartialEq, Eq)]
pub struct InstalledDsh {
    pub version: String,
    pub installed_at: i128,
    /// `verified` or `broken`.
    pub status: String,
}

/// The dsh part of the state.
#[derive(Debug, Clone, PartialEq, Eq)]
pub struct DshState {
    pub current: Option<String>,
    pub known_good: Option<String>,
    pub pending: Option<String>,
    pub installed: Vec<InstalledDsh>,
    pub registry: String,
    pub last_notified: Option<String>,
    pub last_check: Option<i128>,
    pub check_interval_hours: u32,
    pub pinned_range: String,
    pub ignored_versions: Vec<String>,
}

/// The managed Node runtime.
#[derive(Debug, Clone, PartialEq, Eq)]
pub struct NodeState {
    pub version: String,
    pub installed_at: i128,
    pub mirror: String,
}

/// What the first run resolved before installing anything.
#[derive(Debug, Clone, PartialEq, Eq)]
pub struct BootstrapPlan {
    pub dsh_version: String,
    pub registry: String,
    pub engines_node: Option<String>,
    pub node_version: String,
    pub requirement_source: String,
    pub resolved_at: i128,
    pub phase: String,
}

/// The whole state file.
#[derive(Debug, Clone, PartialEq, Eq)]
pub struct AppState {
    pub dsh: DshState,
    pub node: Option<NodeState>,
    pub node_mirror: Option<String>,
    pub bootstrap_plan: Option<BootstrapPlan>,
    pub crash_counter: u32,
    pub last_crash_at: Option<i128>,
}

/// The state file as it was found on disk.
#[derive(Debug, Clone, PartialEq, Eq)]
pub enum StateStatus {
    /// No state file yet.
    FirstRun,
    Loaded(AppState),
}

pub open spec fn opt_str(o: Option<String>) -> Option<Seq<char>> {
    match o {
        Some(s) => Some(s@),
        None => None,
    }
}

/// Installed versions as (version, installed_at, status).
pub open spec fn installed_view(v: Vec<InstalledDsh>) -> Seq<(Seq<char>, i128, Seq<char>)> {
    v@.map_values(|e: InstalledDsh| (e.version@, e.installed_at, e.status@))
}

impl AppState {
    /// A fresh state: nothing installed, default registry and check interval.
    pub fn new() -> (r: Self)
        ensures
            r.dsh.current is None,
            r.dsh.known_good is None,
            r.dsh.pending is None,
            r.dsh.installed@.len() == 0,
            r.dsh.registry@ == DEFAULT_REGISTRY@,
            r.dsh.last_notified is None,
            r.dsh.last_check is None,
            r.dsh.check_interval_hours == DEFAULT_CHECK_INTERVAL_HOURS,
            r.dsh.pinned_range@ == "*"@,
            r.dsh.ignored_versions@.len() == 0,
            r.node is None,
            r.node_mirror is None,
            r.bootstrap_plan is None,
            r.crash_counter == 0,
            r.last_crash_at is None,
    {
        AppState {
            dsh: DshState {
                current: None,
                known_good: None,
                pending: None,
                installed: Vec::new(),
                registry: String::from_str(DEFAULT_REGISTRY),
                last_notified: None,
                last_check: None,
                check_interval_hours: DEFAULT_CHECK_INTERVAL_HOURS,
                pinned_range: String::from_str("*"),
                ignored_versions: Vec::new(),
            },
            node: None,
            node_mirror: None,
            bootstrap_plan: None,
            crash_counter: 0,
            last_crash_at: None,
        }
    }
}

impl NodeState {
    /// A copy of the runtime's record.
    pub fn copy(&self) -> (r: Self)
        ensures
            r == *self,
    {
        NodeState {
            version: self.version.clone(),
            installed_at: self.installed_at,
            mirror: self.mirror.clone(),
        }
    }
}

/// A copy of an optional string.
pub fn copy_opt(o: &Option<String>) -> (r: Option<String>)
    ensures
        r == *o,
{
    match o {
        Some(s) => Some(s.clone()),
        None => None,
    }
}

/// The RFC 3339 text of the UTC time `secs` seconds and `nanos`
/// nanoseconds after the Unix epoch, if chrono can represent it.
pub uninterp spec fn rfc3339_text(secs: i64, nanos: u32) -> Option<Seq<char>>;

/// `chrono::DateTime::<Utc>::from_timestamp(secs, nanos)` then `to_rfc3339`:
/// the RFC 3339 text of the time, or `None` when chrono's date range does
/// not hold it.
#[verifier::external_body]
pub(crate) fn rfc3339_of(secs: i64, nanos: u32) -> (r: Option<String>)
    ensures
        match rfc3339_text(secs, nanos) {
            Some(t) => r matches Some(x) && x@ == t,
            None => r is None,
        },
{
    chrono::DateTime::<chrono::Utc>::from_timestamp(secs, nanos).map(|t| t.to_rfc3339())
}

/// The RFC 3339 text of a timestamp in nanoseconds since the Unix epoch
/// (empty when out of chrono's range): its whole seconds, rounded down, and
/// the nanoseconds past them.
pub open spec fn timestamp_text(t: i128) -> Seq<char> {
    let secs = t / 1_000_000_000;
    let nanos = t % 1_000_000_000;
    if i64::MIN <= secs <= i64::MAX {
        match rfc3339_text(secs as i64, nanos as u32) {
            Some(x) => x,
            None => Seq::empty(),
        }
    } else {
        Seq::empty()
    }
}

/// The RFC 3339 text of a timestamp in nanoseconds since the Unix epoch;
/// empty when chrono's date range does not hold it.
pub fn timestamp_to_rfc3339(t: i128) -> (r: String)
    ensures
        r@ == timestamp_text(t),
{
    let n: i128 = 1_000_000_000;
    let (secs, nanos): (i128, i128) = if t >= 0 {
        (t / n, t % n)
    } else {
        let a: i128 = -(t + 1);
        let q: i128 = a / n;
        let rem: i128 = a % n;
        assert(t == (-q - 1) * 1_000_000_000 + (999_999_999 - rem)) by (nonlinear_arith)
            requires
                a == -(t + 1),
                a == q * 1_000_000_000 + rem,
        ;
        (-q - 1, 999_999_999 - rem)
    };
    assert(secs == t / 1_000_000_000 && nanos == t % 1_000_000_000) by (nonlinear_arith)
        requires
            t == secs * 1_000_000_000 + nanos,
            0 <= nanos < 1_000_000_000,
    ;
    if secs < i64::MIN as i128 || secs > i64::MAX as i128 {
        return String::new();
    }
    match rfc3339_of(secs as i64, nanos as u32) {
        Some(x) => x,
        None => String::new(),
    }
}

/// The schema version a state file records, as its error carries it: the
/// number itself, or 255 for a larger one.
pub open spec fn schema_version_datum(found: u64) -> u8 {
    if found <= 255 {
        found as u8
    } else {
        255
    }
}

/// A state file is read only when it records the schema version this
/// launcher writes.
pub fn check_schema_version(found: u64) -> (r: Result<(), LauncherError>)
    ensures
        found == EXPECTED_SCHEMA_VERSION ==> r is Ok,
        found != EXPECTED_SCHEMA_VERSION ==> (r matches Err(e) && e@
            == Fault::UnsupportedSchemaVersion(schema_version_datum(found))),
{
    if found == EXPECTED_SCHEMA_VERSION as u64 {
        Ok(())
    } else if found <= 255 {
        Err(LauncherError::UnsupportedSchemaVersion(found as u8))
    } else {
        Err(LauncherError::UnsupportedSchemaVersion(255))
    }
}

} // verus!
