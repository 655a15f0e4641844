use dsh_launcher::commands::host::fallback::{
    after_first_start, after_retry, after_rollback, current_dsh_version,
    rollback_failed_dsh_update, rollback_startup_state, should_try_known_good_fallback,
    FallbackStep,
};
use dsh_launcher::commands::host::spawn::{
    map_node_dir_error, require_current_version, require_node_executable, spawn_options,
};
use dsh_launcher::commands::host::status::{
    build_runtime_status_snapshot, build_status_snapshot, host_platform_arch,
    managed_node_is_usable,
};
use dsh_launcher::commands::host::{
    after_update_restart, after_update_rollback_restart, map_host_error, UpdateRestartStep,
};
use dsh_launcher::dsh::version::{promote_to_current, read_current_pointer, DshDir};
use dsh_launcher::error::LauncherError;
use dsh_launcher::host::supervisor::HostSupervisorError;
use dsh_launcher::state::{AppState, NodeState, StateStatus};

fn node(version: &str) -> NodeState {
    NodeState {
        version: version.to_string(),
        installed_at: 1_700_000_000_000_000_000,
        mirror: "https://example.test".to_string(),
    }
}

fn two_versions() -> (AppState, DshDir) {
    let mut dir = DshDir::new("/data/dsh");
    dir.create_dir("0.1.0");
    dir.create_dir("0.2.0");
    let mut state = AppState::new();
    promote_to_current(&mut state, &mut dir, "0.1.0", 1_700_000_000_000_000_000).unwrap();
    promote_to_current(&mut state, &mut dir, "0.2.0", 1_700_000_000_000_000_000).unwrap();
    (state, dir)
}

#[test]
fn loaded_runtime_is_idle() {
    let mut state = AppState::new();
    state.dsh.current = Some("0.1.0".to_string());
    state.node = Some(node("20.18.0"));
    assert_eq!(build_status_snapshot(&StateStatus::Loaded(state), "linux", "x64").phase, "idle");
    assert_eq!(build_status_snapshot(&StateStatus::FirstRun, "linux", "x64").phase, "first_run");
}

#[test]
fn host_platform_uses_node_archive_names() {
    let (platform, arch) = host_platform_arch("linux", "x86_64");
    assert!(matches!(platform, "darwin" | "win" | "linux"));
    assert!(matches!(arch, "arm64" | "x64"));
    assert_eq!(host_platform_arch("macos", "aarch64"), ("darwin", "arm64"));
    assert_eq!(host_platform_arch("windows", "x86"), ("win", "x64"));
}

#[test]
fn status_keeps_dsh_startup_recovery_available_when_current_entry_is_missing() {
    let mut state = AppState::new();
    state.node = Some(node("22.19.0"));
    state.dsh.current = Some("0.2.0".to_string());
    assert!(managed_node_is_usable(&state, Some("node-v22.19.0"), true));

    let status = build_runtime_status_snapshot(&StateStatus::Loaded(state), true, "linux", "x64");

    assert_eq!(status.phase, "idle");
    assert_eq!(status.node_version.as_deref(), Some("22.19.0"));
    assert_eq!(status.dsh_version.as_deref(), Some("0.2.0"));
}

#[test]
fn status_enters_full_repair_when_managed_node_is_missing() {
    let mut state = AppState::new();
    state.node = Some(node("22.19.0"));
    state.dsh.current = Some("0.2.0".to_string());
    assert!(!managed_node_is_usable(&state, None, false));
    assert!(!managed_node_is_usable(&state, Some("node-v22.18.0"), true));
    assert!(!managed_node_is_usable(&state, Some("node-v22.19.0"), false));

    let status = build_runtime_status_snapshot(&StateStatus::Loaded(state), false, "linux", "x64");

    assert_eq!(status.phase, "first_run");
    assert_eq!(status.node_version, None);
    assert_eq!(status.dsh_version, None);
}

#[test]
fn failed_update_restores_known_good_version() {
    let (state, mut dir) = two_versions();
    let (state, version) = rollback_failed_dsh_update(StateStatus::Loaded(state), &mut dir, 1_700_000_000_000_000_000).unwrap();
    assert_eq!(version, "0.1.0");
    assert_eq!(state.dsh.current.as_deref(), Some("0.1.0"));
    assert!(state.dsh.known_good.is_none());
    assert!(rollback_failed_dsh_update(StateStatus::FirstRun, &mut dir, 1_700_000_000_000_000_000).is_err());
}

#[test]
fn startup_rollback_marks_current_broken_and_consumes_known_good() {
    let (mut state, mut dir) = two_versions();

    assert_eq!(rollback_startup_state(&mut state, &mut dir, 1_700_000_000_000_000_000).unwrap().as_deref(), Some("0.1.0"));

    assert_eq!(state.dsh.current.as_deref(), Some("0.1.0"));
    assert!(state.dsh.known_good.is_none());
    assert_eq!(read_current_pointer(&dir).as_deref(), Some("0.1.0"));
    assert_eq!(rollback_startup_state(&mut state, &mut dir, 1_700_000_000_000_000_000).unwrap(), None);
}

fn run_with_fallback(
    mut start: impl FnMut() -> Result<String, LauncherError>,
    mut rollback: impl FnMut() -> Result<Option<String>, LauncherError>,
) -> Result<String, LauncherError> {
    match after_first_start(start()) {
        FallbackStep::Done(result) => result,
        FallbackStep::Rollback(error) => match after_rollback(error, rollback()) {
            FallbackStep::Done(result) => result,
            FallbackStep::Retry(error, version) => after_retry(&error, &version, start()),
            FallbackStep::Rollback(_) => unreachable!(),
        },
        FallbackStep::Retry(..) => unreachable!(),
    }
}

#[test]
fn startup_retries_known_good_exactly_once() {
    let mut attempts = 0;
    let origin = run_with_fallback(
        || {
            attempts += 1;
            if attempts == 1 {
                Err(LauncherError::Host("readiness timed out".to_string()))
            } else {
                Ok("http://127.0.0.1:48123".to_string())
            }
        },
        || Ok(Some("0.1.0".to_string())),
    )
    .unwrap();

    assert_eq!(origin, "http://127.0.0.1:48123");
    assert_eq!(attempts, 2);
}

#[test]
fn startup_does_not_retry_when_node_is_missing() {
    let mut attempts = 0;
    let error = run_with_fallback(
        || {
            attempts += 1;
            Err(LauncherError::NodeNotInstalled { reason: "missing".to_string() })
        },
        || Ok(Some("0.1.0".to_string())),
    )
    .unwrap_err();

    assert!(matches!(error, LauncherError::NodeNotInstalled { .. }));
    assert_eq!(attempts, 1);
}

#[test]
fn both_failures_are_reported_after_the_retry() {
    let error = run_with_fallback(
        || Err(LauncherError::Host("boom".to_string())),
        || Ok(Some("0.1.0".to_string())),
    )
    .unwrap_err();
    assert_eq!(
        error.message(),
        "host supervisor error: current dsh failed: host supervisor error: boom; known-good 0.1.0 also failed: host supervisor error: boom"
    );
    let no_known_good = run_with_fallback(
        || Err(LauncherError::DshNotInstalled { reason: "gone".to_string() }),
        || Ok(None),
    )
    .unwrap_err();
    assert_eq!(no_known_good.message(), "dsh not installed: gone");
    assert!(should_try_known_good_fallback(&LauncherError::Host(String::new())));
    assert!(!should_try_known_good_fallback(&LauncherError::Mirror(String::new())));
}

#[test]
fn spawn_options_require_the_managed_node_binary() {
    let error = require_node_executable("/rt/node-v22/bin/node", false).unwrap_err();
    assert!(matches!(error, LauncherError::NodeNotInstalled { .. }));
    let error = map_node_dir_error(LauncherError::NodeDownload(
        "read VERSION file failed: not found".to_string(),
    ));
    assert_eq!(
        error.message(),
        "node not installed: node-runtime/VERSION not found; first-run wizard not completed"
    );
    let other = map_node_dir_error(LauncherError::NodeDownload("other".to_string()));
    assert_eq!(other, LauncherError::NodeDownload("other".to_string()));
}

#[test]
fn spawn_options_use_the_current_dsh_version_as_working_directory() {
    let version = require_current_version(Ok(Some("0.2.0".to_string()))).unwrap();
    let options = spawn_options(
        "/rt/node-v22.19.0/bin/node".to_string(),
        "/data/dsh",
        &version,
        true,
        vec![("PATH".to_string(), "/usr/bin".to_string())],
    )
    .unwrap();

    assert_eq!(options.cwd, "/data/dsh/0.2.0");
    assert!(options.cli_entry.ends_with("node_modules/@deepseek-ai/dsh/lib/bin.js"));
    assert_eq!(
        options.env,
        vec![
            ("PATH".to_string(), "/usr/bin".to_string()),
            ("DSH_CLI_ENTRY".to_string(), options.cli_entry.clone()),
        ]
    );
    assert!(matches!(
        require_current_version(Ok(None)).unwrap_err(),
        LauncherError::DshNotInstalled { .. }
    ));
    assert!(spawn_options("node".to_string(), "/data/dsh", "0.2.0", false, vec![]).is_err());
}

#[test]
fn rolled_back_result_serializes_the_original_start_error() {
    let restart_error = LauncherError::Host("desktop Host readiness timed out after 90s".to_string());
    let result = after_update_rollback_restart(
        &restart_error,
        "0.1.1-rc.2".to_string(),
        Ok("http://127.0.0.1:1337/".to_string()),
    )
    .unwrap();
    assert!(result.rolled_back);
    assert_eq!(result.active_version, "0.1.1-rc.2");
    let start_error = result.start_error.expect("start error");
    assert_eq!(start_error.kind, "host");
    assert!(start_error.message.contains("readiness timed out"));
    assert!(start_error.user_message.contains("启动超时"));
}

#[test]
fn update_restart_without_failure_is_not_rolled_back() {
    match after_update_restart("0.2.0".to_string(), Ok("http://127.0.0.1:1/".to_string())) {
        UpdateRestartStep::Done(Ok(result)) => {
            assert!(!result.rolled_back);
            assert!(result.start_error.is_none());
        }
        _ => panic!("expected an answer"),
    }
    assert_eq!(
        map_host_error(&HostSupervisorError::ReadinessTimeout(90_000)).message(),
        "host supervisor error: desktop Host readiness timed out after 90s"
    );
    assert_eq!(
        current_dsh_version(&StateStatus::FirstRun).unwrap_err().message(),
        "dsh not installed: state.json not found"
    );
}
