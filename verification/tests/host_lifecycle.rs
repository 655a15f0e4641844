use dsh_launcher::host::lifecycle::{
    filtered_env, is_busy_code,
    is_executable_busy, is_passthrough, spawn_failure_step, SpawnDshWebOptions, SpawnStep,
};
use dsh_launcher::error::LauncherError;

#[test]
fn passthrough_includes_path_and_home() {
    assert!(is_passthrough("PATH"));
    assert!(is_passthrough("HOME"));
    assert!(is_passthrough("USERPROFILE"));
    assert!(is_passthrough("LANG"));
}

#[test]
fn passthrough_includes_dsh_prefix() {
    assert!(is_passthrough("DSH_FOO"));
    assert!(is_passthrough("DSH_BAR"));
}

#[test]
fn passthrough_includes_lc_prefix() {
    assert!(is_passthrough("LC_ALL"));
    assert!(is_passthrough("LC_CTYPE"));
}

#[test]
fn passthrough_excludes_rust_prefix() {
    assert!(!is_passthrough("RUST_BACKTRACE"));
    assert!(!is_passthrough("RUSTC_COLOR"));
}

#[test]
fn passthrough_excludes_tauri_prefix() {
    assert!(!is_passthrough("TAURI_DEV"));
    assert!(!is_passthrough("TAURI_PLATFORM"));
}

#[test]
fn passthrough_excludes_npm_prefix() {
    assert!(!is_passthrough("npm_config_user_agent"));
    assert!(!is_passthrough("npm_lifecycle_event"));
    assert!(!is_passthrough("npm_package_name"));
    assert!(!is_passthrough("npm_user_agent"));
}

#[test]
fn filtered_env_drops_disallowed_keys() {
    let vars = vec![
        ("RUST_TEST_FILTERED".to_string(), "1".to_string()),
        ("TAURI_TEST_FILTERED".to_string(), "1".to_string()),
        ("DSH_TEST_FILTERED".to_string(), "1".to_string()),
        ("PATH".to_string(), "/usr/bin".to_string()),
        ("EDITOR".to_string(), "vi".to_string()),
    ];
    let env = filtered_env(&vars);
    assert_eq!(
        env,
        vec![
            ("DSH_TEST_FILTERED".to_string(), "1".to_string()),
            ("PATH".to_string(), "/usr/bin".to_string()),
        ]
    );
}

#[test]
fn cli_entry_from_env_errors_when_unset() {
    let err = SpawnDshWebOptions::cli_entry_from_env(None).unwrap_err();
    assert!(matches!(err, LauncherError::PathResolve { what, .. } if what == "cli_entry"));
}

#[test]
fn cli_entry_from_env_returns_path_when_set() {
    let p = SpawnDshWebOptions::cli_entry_from_env(Some("/tmp/dsh/bin.js".to_string())).expect("ok");
    assert_eq!(p, "/tmp/dsh/bin.js");
}

#[test]
fn executable_busy_matches_unix_etxtbsy() {
    let busy = std::io::Error::from_raw_os_error(26);
    let missing = std::io::Error::from_raw_os_error(2);
    assert!(is_executable_busy(&busy));
    assert!(!is_executable_busy(&missing));
    assert!(!is_executable_busy(&std::io::Error::new(std::io::ErrorKind::Other, "x")));
    assert!(is_busy_code(Some(26)));
    assert!(!is_busy_code(None));
}

#[test]
fn spawn_command_line_and_environment() {
    let opts = SpawnDshWebOptions {
        node_executable: SpawnDshWebOptions::default_node_executable(),
        cli_entry: "/tmp/dsh/bin.js".to_string(),
        cwd: "/tmp".to_string(),
        env: vec![("DSH_X".to_string(), "1".to_string())],
        electron_run_as_node: true,
    };
    assert_eq!(opts.node_executable, "node");
    assert_eq!(
        opts.spawn_args(),
        vec!["--expose-internals", "/tmp/dsh/bin.js", "web", "--host", "127.0.0.1", "--port", "0"]
    );
    assert_eq!(
        opts.spawn_env(),
        vec![
            ("DSH_X".to_string(), "1".to_string()),
            ("ELECTRON_RUN_AS_NODE".to_string(), "1".to_string()),
        ]
    );
}

#[test]
fn busy_spawns_are_retried_with_growing_waits() {
    assert_eq!(spawn_failure_step(0, false), SpawnStep::Fail);
    assert_eq!(spawn_failure_step(0, true), SpawnStep::Wait { millis: 20, retry: true });
    assert_eq!(spawn_failure_step(3, true), SpawnStep::Wait { millis: 80, retry: true });
    assert_eq!(spawn_failure_step(7, true), SpawnStep::Wait { millis: 160, retry: false });
}
