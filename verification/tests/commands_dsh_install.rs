use dsh_launcher::commands::dsh_install::{
    dsh_install_stage_from_npm_log, ensure_node_compatible, finish_dsh_install,
    install_preconditions, install_registry, missing_node_binary, selected_install_version,
};
use dsh_launcher::dsh::registry::{DistInfo, EnginesField, PackageManifest};
use dsh_launcher::dsh::version::DshDir;
use dsh_launcher::error::LauncherError;
use dsh_launcher::state::{AppState, BootstrapPlan, NodeState, StateStatus};

fn plan(engines: Option<&str>) -> BootstrapPlan {
    BootstrapPlan {
        dsh_version: "0.2.0".to_string(),
        registry: "https://registry.npmjs.org".to_string(),
        engines_node: engines.map(str::to_string),
        node_version: "22.0.0".to_string(),
        requirement_source: "launcher-verified-fallback".to_string(),
        resolved_at: 1_700_000_000_000_000_000,
        phase: "resolved".to_string(),
    }
}

fn manifest(engines: &str) -> PackageManifest {
    PackageManifest {
        version: "0.2.0".to_string(),
        engines: EnginesField { node: engines.to_string() },
        dist: DistInfo {
            integrity: "sha512-test".to_string(),
            tarball: "https://example.test/dsh-0.2.0.tgz".to_string(),
        },
    }
}

#[test]
fn npm_output_maps_to_progress_stages() {
    assert_eq!(dsh_install_stage_from_npm_log("npm http fetch GET"), Some("downloading"));
    assert_eq!(dsh_install_stage_from_npm_log("npm info run prepare"), Some("installing"));
    assert_eq!(dsh_install_stage_from_npm_log("npm ok"), None);
}

#[test]
fn update_requires_the_displayed_version() {
    let error = selected_install_version(None, None).unwrap_err();
    assert!(error.message().contains("select a displayed"));
    assert_eq!(selected_install_version(None, Some("0.2.0")).unwrap(), "0.2.0");
}

#[test]
fn bootstrap_reuses_its_frozen_version() {
    let plan = plan(None);

    assert_eq!(selected_install_version(Some(&plan), None).unwrap(), "0.2.0");
    assert!(selected_install_version(Some(&plan), Some("0.3.0")).is_err());
}

#[test]
fn incompatible_node_rejects_an_update_before_current_is_promoted() {
    let manifest = manifest(">=24.0.0");
    let mut state = AppState::new();
    state.dsh.current = Some("0.1.0".to_string());

    let error = ensure_node_compatible(None, &manifest, "22.19.0", "0.2.0").unwrap_err();

    assert!(matches!(error, LauncherError::NodeVersion(_)));
    assert_eq!(
        error.message(),
        "node version error: dsh 0.2.0 requires Node >=24.0.0, current version is 22.19.0"
    );
    assert_eq!(state.dsh.current.as_deref(), Some("0.1.0"));
}

#[test]
fn frozen_requirement_must_match_the_manifest() {
    let frozen = plan(Some(">=22.0.0"));
    assert!(ensure_node_compatible(Some(&frozen), &manifest(">=22.0.0"), "22.19.0", "0.2.0").is_ok());
    let changed = ensure_node_compatible(Some(&frozen), &manifest(">=24.0.0"), "22.19.0", "0.2.0")
        .unwrap_err();
    assert!(matches!(changed, LauncherError::DshRegistry(_)));
    let unmet = ensure_node_compatible(Some(&frozen), &manifest(">=22.0.0"), "20.0.0", "0.2.0")
        .unwrap_err();
    assert_eq!(
        unmet.message(),
        "node version error: installed Node 20.0.0 does not satisfy frozen dsh requirement >=22.0.0"
    );
    let none_frozen = plan(None);
    assert!(ensure_node_compatible(Some(&none_frozen), &manifest("  "), "10.0.0", "0.2.0").is_ok());
}

#[test]
fn install_needs_a_completed_first_run() {
    let error = install_preconditions(StateStatus::FirstRun).unwrap_err();
    assert!(matches!(error, LauncherError::NodeNotInstalled { .. }));
    let error = install_preconditions(StateStatus::Loaded(AppState::new())).unwrap_err();
    assert_eq!(
        error.message(),
        "node not installed: state.node is None; complete first-run wizard first"
    );
    let mut state = AppState::new();
    state.node = Some(NodeState {
        version: "22.19.0".to_string(),
        installed_at: 0,
        mirror: "https://nodejs.org/dist".to_string(),
    });
    let (_, node) = install_preconditions(StateStatus::Loaded(state)).unwrap();
    assert_eq!(node.version, "22.19.0");
    assert_eq!(
        missing_node_binary("/rt/node-v22/bin/node", "22.19.0").message(),
        "node not installed: node binary not found: /rt/node-v22/bin/node (VERSION says 22.19.0 but binary missing)"
    );
}

#[test]
fn install_uses_the_plan_registry_then_promotes() {
    let mut state = AppState::new();
    assert_eq!(install_registry(&state), "https://registry.npmmirror.com");
    state.bootstrap_plan = Some(plan(None));
    assert_eq!(install_registry(&state), "https://registry.npmjs.org");

    let mut dir = DshDir::new("/data/dsh");
    assert!(finish_dsh_install(&mut state, &mut dir, "0.2.0", 1_700_000_000_000_000_000).is_err());
    assert!(state.bootstrap_plan.is_some());
    dir.create_dir("0.2.0");
    finish_dsh_install(&mut state, &mut dir, "0.2.0", 1_700_000_000_000_000_000).unwrap();
    assert!(state.bootstrap_plan.is_none());
    assert_eq!(state.dsh.current.as_deref(), Some("0.2.0"));
}
