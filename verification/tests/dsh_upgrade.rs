use dsh_launcher::dsh::registry::{DistInfo, DistTags, EnginesField, PackageManifest, PackageMetadata};
use dsh_launcher::dsh::upgrade::{
    evaluate_upgrade, record_prepared_upgrade, upgrade_check_due, UpgradeCandidate,
};
use dsh_launcher::state::{AppState, NodeState};
use dsh_launcher::versions::{current_node_satisfies, node_version_newer};

fn manifest(version: &str, engines: &str) -> PackageManifest {
    PackageManifest {
        version: version.to_string(),
        engines: EnginesField { node: engines.to_string() },
        dist: DistInfo {
            integrity: "sha512-aaaaaa==".to_string(),
            tarball: format!("https://registry.npmjs.org/@deepseek-ai/dsh/-/dsh-{version}.tgz"),
        },
    }
}

fn test_metadata() -> PackageMetadata {
    PackageMetadata {
        name: "@deepseek-ai/dsh".to_string(),
        dist_tags: DistTags { latest: "0.1.0".to_string() },
        versions: vec![
            ("0.0.9".to_string(), Ok(manifest("0.0.9", ">=20.0.0"))),
            ("0.1.0".to_string(), Ok(manifest("0.1.0", ">=22.0.0"))),
            ("0.1.0-rc.6".to_string(), Ok(manifest("0.1.0-rc.6", ">=22.0.0"))),
        ],
    }
}

fn test_state() -> AppState {
    let mut state = AppState::new();
    state.node = Some(NodeState {
        version: "22.19.0".to_string(),
        installed_at: 1_700_000_000_000_000_000,
        mirror: "https://npmmirror.com/mirrors/node".to_string(),
    });
    state
}

#[test]
fn upgrade_candidate_equality() {
    let a = UpgradeCandidate { version: "0.1.0".to_string(), engines_node: ">=22.0.0".to_string() };
    let b = UpgradeCandidate { version: "0.1.0".to_string(), engines_node: ">=22.0.0".to_string() };
    assert_eq!(a, b);
}

#[test]
fn check_for_upgrade_skips_when_too_soon() {
    let now = 1_700_000_000_000_000_000;
    assert!(!upgrade_check_due(Some(now - 60 * 1_000_000_000), 24, now));
}

#[test]
fn check_for_upgrade_runs_when_interval_passed() {
    let now = 1_700_000_000_000_000_000;
    assert!(upgrade_check_due(Some(now - 25 * 3600 * 1_000_000_000), 24, now));
    assert!(upgrade_check_due(Some(now - 24 * 3600 * 1_000_000_000), 24, now));
}

#[test]
fn check_for_upgrade_runs_when_no_last_check() {
    assert!(upgrade_check_due(None, 24, 0));
}

#[test]
fn latest_in_range_is_offered() {
    let state = test_state();
    let candidate = evaluate_upgrade(&state, &test_metadata()).unwrap().unwrap();
    assert_eq!(candidate.version, "0.1.0");
    assert_eq!(candidate.engines_node, ">=22.0.0");
}

#[test]
fn check_same_version_returns_none() {
    let mut state = test_state();
    state.dsh.current = Some("0.1.0".to_string());
    assert_eq!(evaluate_upgrade(&state, &test_metadata()).unwrap(), None);
}

#[test]
fn check_ignored_version_returns_none() {
    let mut state = test_state();
    state.dsh.ignored_versions.push("0.1.0".to_string());
    assert_eq!(evaluate_upgrade(&state, &test_metadata()).unwrap(), None);
}

#[test]
fn pinned_range_mismatch_is_skipped() {
    let mut state = test_state();
    state.dsh.pinned_range = "^99.0.0".to_string();
    assert_eq!(evaluate_upgrade(&state, &test_metadata()).unwrap(), None);
}

#[test]
fn invalid_pinned_range_is_an_error() {
    let mut state = test_state();
    state.dsh.pinned_range = ">>nonsense".to_string();
    let error = evaluate_upgrade(&state, &test_metadata()).unwrap_err();
    assert!(error.message().starts_with("dsh version error: invalid pinned_range '>>nonsense': "));
}

#[test]
fn too_old_node_is_not_offered_an_upgrade() {
    let mut state = test_state();
    state.node = Some(NodeState {
        version: "20.0.0".to_string(),
        installed_at: 0,
        mirror: "https://nodejs.org/dist".to_string(),
    });
    assert_eq!(evaluate_upgrade(&state, &test_metadata()).unwrap(), None);
}

#[test]
fn engines_node_satisfies_check() {
    let state = test_state();
    assert!(current_node_satisfies(state.node.as_ref().map(|n| n.version.as_str()), ">=22.0.0")
        .unwrap());
}

#[test]
fn engines_node_unsatisfied_returns_false() {
    assert!(!current_node_satisfies(Some("20.0.0"), ">=22.0.0").unwrap());
    assert!(!current_node_satisfies(None, ">=22.0.0").unwrap());
    assert!(current_node_satisfies(Some("v22.1.0"), "^22").unwrap());
}

#[test]
fn node_versions_compare_by_precedence() {
    assert!(node_version_newer("24.4.0", "22.19.0").unwrap());
    assert!(!node_version_newer("v22.19.0", "22.19.0").unwrap());
    assert!(node_version_newer("x", "1.0.0").is_err());
}

#[test]
fn prepared_upgrade_is_pending() {
    let mut state = test_state();
    let candidate = UpgradeCandidate { version: "0.1.0".to_string(), engines_node: String::new() };
    record_prepared_upgrade(&mut state, &candidate, 1_700_000_100_000_000_000);
    assert_eq!(state.dsh.pending.as_deref(), Some("0.1.0"));
    assert_eq!(state.dsh.last_check, Some(1_700_000_100_000_000_000));
}
