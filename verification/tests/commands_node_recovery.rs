use dsh_launcher::commands::node_install::{
    after_node_install, node_update_target, node_upgrade_transaction, record_node_installed,
    restore_node_state, update_requirement, update_target_base, upgrade_base, NodeInstallStep,
    NodeUpgradeTransaction,
};
use dsh_launcher::commands::recovery::{
    after_crash_restart, decide_after_crash, prompt_without_state, CrashAction, CrashLimitPayload,
    CrashStep,
};
use dsh_launcher::error::LauncherError;
use dsh_launcher::host::supervisor::HostExitDetail;
use dsh_launcher::state::{AppState, BootstrapPlan, NodeState, StateStatus};

fn transaction() -> NodeUpgradeTransaction {
    NodeUpgradeTransaction {
        upgraded_node: "24.4.0".to_string(),
        previous_node: NodeState {
            version: "22.19.0".to_string(),
            installed_at: 1_700_000_000_000_000_000,
            mirror: "https://nodejs.org/dist".to_string(),
        },
        previous_node_mirror: Some("https://nodejs.org/dist".to_string()),
    }
}

#[test]
fn restore_node_state_reinstates_the_previous_version_and_mirror() {
    let transaction = transaction();
    let mut state = AppState::new();
    state.node = Some(NodeState {
        version: "24.4.0".to_string(),
        installed_at: 1_700_000_500_000_000_000,
        mirror: "https://nodejs.org/dist".to_string(),
    });
    state.node_mirror = Some("https://nodejs.org/dist".to_string());

    restore_node_state(&mut state, &transaction).unwrap();

    assert_eq!(state.node, Some(transaction.previous_node));
    assert_eq!(state.node_mirror, transaction.previous_node_mirror);
}

#[test]
fn restore_node_state_rejects_a_stale_transaction() {
    let transaction = transaction();
    let mut state = AppState::new();
    state.node = Some(NodeState {
        version: "25.0.0".to_string(),
        installed_at: 1_700_000_500_000_000_000,
        mirror: "https://nodejs.org/dist".to_string(),
    });

    let error = restore_node_state(&mut state, &transaction).unwrap_err();
    assert!(matches!(error, LauncherError::NodeVersion(_)));
    assert_eq!(
        error.message(),
        "node version error: refusing stale Node rollback: active version is 25.0.0, expected 24.4.0"
    );
    assert_eq!(state.node.as_ref().unwrap().version, "25.0.0");
}

#[test]
fn upgrade_then_restore_returns_to_the_previous_runtime() {
    let mut state = AppState::new();
    let previous = NodeState {
        version: "22.19.0".to_string(),
        installed_at: 100,
        mirror: "https://nodejs.org/dist".to_string(),
    };
    state.node = Some(previous.clone());
    let status = StateStatus::Loaded(state.clone());
    let (base, mirror) = upgrade_base(&status).unwrap();
    assert_eq!(mirror, "https://nodejs.org/dist");
    let transaction = node_upgrade_transaction(&state, base, "24.4.0".to_string());
    record_node_installed(&mut state, "24.4.0", &mirror, 200);
    assert_eq!(state.node.as_ref().unwrap().version, "24.4.0");
    restore_node_state(&mut state, &transaction).unwrap();
    assert_eq!(state.node, Some(previous));
    assert_eq!(state.node_mirror, None);
}

#[test]
fn installing_node_advances_the_bootstrap_plan() {
    let mut state = AppState::new();
    state.bootstrap_plan = Some(BootstrapPlan {
        dsh_version: "0.2.0".to_string(),
        registry: "https://registry.npmjs.org".to_string(),
        engines_node: None,
        node_version: "22.19.0".to_string(),
        requirement_source: "launcher-verified-fallback".to_string(),
        resolved_at: 0,
        phase: "resolved".to_string(),
    });
    record_node_installed(&mut state, "22.19.0", "https://npmmirror.com/mirrors/node", 5);
    assert_eq!(state.bootstrap_plan.as_ref().unwrap().phase, "node_installed");
    assert_eq!(state.node_mirror.as_deref(), Some("https://npmmirror.com/mirrors/node"));
}

#[test]
fn upgrades_need_a_managed_runtime() {
    assert!(matches!(
        upgrade_base(&StateStatus::FirstRun).unwrap_err(),
        LauncherError::NodeNotInstalled { .. }
    ));
    let mut state = AppState::new();
    state.node = Some(transaction().previous_node);
    assert_eq!(
        update_target_base(&StateStatus::Loaded(state)).unwrap_err().message(),
        "dsh not installed: cannot select a compatible Node version without an installed dsh"
    );
}

#[test]
fn update_target_follows_the_requirement() {
    assert_eq!(update_requirement("  "), None);
    assert_eq!(update_requirement(" >=24 ").as_deref(), Some(">=24"));
    let target = node_update_target("22.19.0", Some(">=24".to_string()), "24.4.0".to_string())
        .unwrap();
    assert!(target.update_available);
    assert_eq!(target.target_source, "dsh-engines");
    let fallback = node_update_target("22.19.0", None, "22.19.0".to_string()).unwrap();
    assert!(!fallback.update_available);
    assert_eq!(fallback.target_source, "launcher-verified-fallback");
}

#[test]
fn cancelled_installs_clean_up() {
    assert_eq!(after_node_install(Ok(()), false), NodeInstallStep::Finish);
    assert_eq!(after_node_install(Ok(()), true), NodeInstallStep::CleanupInstalledThenCancel);
    assert_eq!(
        after_node_install(
            Err(LauncherError::NodeInstallCancelled { operation_id: "op".to_string() }),
            false
        ),
        NodeInstallStep::CleanupArtifactsThenCancel
    );
    let failure = LauncherError::NodeDownload("timed out".to_string());
    assert_eq!(after_node_install(Err(failure.clone()), false), NodeInstallStep::Fail(failure));
}

#[test]
fn crash_payload_uses_frontend_field_names() {
    let payload = CrashLimitPayload {
        crash_counter: 3,
        retry_limit: 3,
        exit_code: Some(1),
        exit_signal: None,
        known_good: Some("0.1.0".to_string()),
    };
    assert_eq!(payload.crash_counter, 3);
    assert_eq!(payload.known_good.as_deref(), Some("0.1.0"));
}

#[test]
fn crashes_restart_until_the_limit_then_prompt() {
    let exit = HostExitDetail { code: Some(1), signal: None };
    let mut state = AppState::new();
    state.dsh.known_good = Some("0.1.0".to_string());
    match decide_after_crash(&mut state, exit, 1_000) {
        CrashStep::Restart { attempt, fallback } => {
            assert_eq!(attempt, 1);
            assert_eq!(
                after_crash_restart(attempt, Some("http://127.0.0.1:2".to_string()), fallback),
                CrashAction::Restarted { attempt: 1, origin: "http://127.0.0.1:2".to_string() }
            );
        }
        CrashStep::Prompt(_) => panic!("first crash restarts"),
    }
    decide_after_crash(&mut state, exit, 1_010);
    match decide_after_crash(&mut state, exit, 1_020) {
        CrashStep::Prompt(payload) => {
            assert_eq!(payload.crash_counter, 3);
            assert_eq!(payload.exit_code, Some(1));
            assert_eq!(payload.known_good.as_deref(), Some("0.1.0"));
        }
        CrashStep::Restart { .. } => panic!("third crash prompts"),
    }
    let unknown = prompt_without_state(exit);
    assert_eq!(unknown.crash_counter, 3);
    assert_eq!(unknown.known_good, None);
}
