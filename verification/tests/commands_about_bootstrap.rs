use dsh_launcher::commands::about::build_about_info;
use dsh_launcher::commands::bootstrap::{
    bootstrap_target, latest_dsh_version, list_mirrors, new_bootstrap_plan, record_notified,
    update_to_notify, BootstrapPlanInfo, DshUpdateInfo,
};
use dsh_launcher::dsh::registry::{DistInfo, DistTags, EnginesField, PackageManifest, PackageMetadata};
use dsh_launcher::mirrors::builtin_mirrors;
use dsh_launcher::state::{AppState, NodeState, StateStatus};

fn manifest(version: &str, engines: &str) -> PackageManifest {
    PackageManifest {
        version: version.to_string(),
        engines: EnginesField { node: engines.to_string() },
        dist: DistInfo {
            integrity: "sha512-aaaa".to_string(),
            tarball: format!("https://registry.npmjs.org/@deepseek-ai/dsh/-/dsh-{version}.tgz"),
        },
    }
}

#[test]
fn includes_managed_runtime_details() {
    let mut state = AppState::new();
    state.dsh.current = Some("0.3.0".to_string());
    state.node = Some(NodeState {
        version: "22.19.0".to_string(),
        installed_at: 1_700_000_000_000_000_000,
        mirror: "https://nodejs.org/dist".to_string(),
    });

    let info = build_about_info(
        &StateStatus::Loaded(state),
        "/tmp/deepseek-harness-launcher",
        "0.1.0",
    );

    assert_eq!(info.dsh_version.as_deref(), Some("0.3.0"));
    assert_eq!(info.node_version.as_deref(), Some("22.19.0"));
    assert_eq!(info.data_directory, "/tmp/deepseek-harness-launcher");
}

#[test]
fn first_run_has_no_managed_runtime_details() {
    let info = build_about_info(&StateStatus::FirstRun, "/tmp/data", "0.1.0");

    assert_eq!(info.dsh_version, None);
    assert_eq!(info.node_version, None);
}

#[test]
fn builtin_mirrors_are_exposed() {
    let mirrors = list_mirrors();
    assert_eq!(mirrors.len(), builtin_mirrors().len());
    assert!(mirrors.iter().all(|mirror| mirror.trusted));
}

#[test]
fn latest_version_must_have_manifest() {
    let metadata = PackageMetadata {
        name: "@deepseek-ai/dsh".to_string(),
        dist_tags: DistTags { latest: "0.2.0".to_string() },
        versions: vec![],
    };
    assert!(latest_dsh_version(&metadata).is_err());
}

#[test]
fn update_check_only_returns_unnotified_new_versions() {
    assert_eq!(update_to_notify("0.1.0", None, "0.1.0"), None);
    assert_eq!(update_to_notify("0.1.0", Some("0.2.0"), "0.2.0"), None);
    assert_eq!(
        update_to_notify("0.1.0", Some("0.2.0"), "0.3.0"),
        Some(DshUpdateInfo {
            current_version: "0.1.0".to_string(),
            latest_version: "0.3.0".to_string(),
        })
    );
}

#[test]
fn recorded_notice_is_not_repeated() {
    let mut state = AppState::new();
    state.dsh.current = Some("0.1.0".to_string());
    let update = update_to_notify("0.1.0", None, "0.2.0").expect("new version");
    record_notified(&mut state, &update);
    assert_eq!(state.dsh.last_notified.as_deref(), Some("0.2.0"));
    assert_eq!(update_to_notify("0.1.0", state.dsh.last_notified.as_deref(), "0.2.0"), None);
}

#[test]
fn latest_version_with_manifest_is_returned() {
    let metadata = PackageMetadata {
        name: "@deepseek-ai/dsh".to_string(),
        dist_tags: DistTags { latest: "0.2.0".to_string() },
        versions: vec![
            ("0.1.0".to_string(), Ok(manifest("0.1.0", ""))),
            ("0.2.0".to_string(), Ok(manifest("0.2.0", " >=22.0.0 "))),
        ],
    };
    assert_eq!(latest_dsh_version(&metadata).unwrap(), "0.2.0");
    let (version, engines) = bootstrap_target(&metadata).unwrap();
    assert_eq!(version, "0.2.0");
    assert_eq!(engines.as_deref(), Some(" >=22.0.0 "));
}

#[test]
fn missing_version_error_lists_available_versions() {
    let metadata = PackageMetadata {
        name: "@deepseek-ai/dsh".to_string(),
        dist_tags: DistTags { latest: "0.3.0".to_string() },
        versions: vec![
            ("0.1.0".to_string(), Ok(manifest("0.1.0", ""))),
            ("0.2.0".to_string(), Err("missing field `dist`".to_string())),
        ],
    };
    let error = latest_dsh_version(&metadata).unwrap_err();
    assert_eq!(
        error.message(),
        "dsh registry error: version 0.3.0 not found in @deepseek-ai/dsh (available: 0.1.0, 0.2.0)"
    );
    let broken = metadata.manifest_for("0.2.0").unwrap_err();
    assert_eq!(broken.message(), "dsh registry error: missing field `dist`");
}

#[test]
fn blank_engines_means_no_requirement() {
    let metadata = PackageMetadata {
        name: "@deepseek-ai/dsh".to_string(),
        dist_tags: DistTags { latest: "0.1.0".to_string() },
        versions: vec![("0.1.0".to_string(), Ok(manifest("0.1.0", "   ")))],
    };
    let (_, engines) = bootstrap_target(&metadata).unwrap();
    assert_eq!(engines, None);
}

#[test]
fn bootstrap_plan_info_renders_the_resolution_time() {
    let plan = new_bootstrap_plan(
        "0.2.0".to_string(),
        "https://registry.npmjs.org".to_string(),
        None,
        "22.0.0".to_string(),
        "launcher-verified-fallback".to_string(),
        1_431_648_000_000_000_000,
    );
    assert_eq!(plan.phase, "resolved");
    let info = BootstrapPlanInfo::from_plan(&plan);
    assert_eq!(info.resolved_at, "2015-05-15T00:00:00+00:00");
    assert_eq!(info.dsh_version, "0.2.0");
}
