use dsh_launcher::state::timestamp_to_rfc3339;
use dsh_launcher::cli_shim::{
    check_dsh_entry, check_dsh_pointer, check_node_binary, check_node_runtime, command_contents,
    ensure_owned_or_absent, helper_contents, helper_path, install_result, posix_quote,
    SHIM_MARKER,
};
use dsh_launcher::commands::maintenance::managed_runtime_paths;
use dsh_launcher::commands::settings::{
    get_dsh_state, set_node_mirror, set_registry, validated_node_mirror, validated_registry,
};
use dsh_launcher::error::LauncherError;
use dsh_launcher::mirrors::builtin_mirrors;
use dsh_launcher::state::{AppState, InstalledDsh, StateStatus};

#[test]
fn validates_only_supported_sources() {
    assert!(validated_node_mirror(builtin_mirrors()[0].base_url).is_ok());
    assert!(validated_node_mirror("https://example.test").is_err());
    assert_eq!(
        validated_registry("https://registry.npmjs.org/").expect("registry"),
        "https://registry.npmjs.org"
    );
    assert!(validated_registry("https://example.test").is_err());
}

#[test]
fn settings_are_only_changed_to_supported_values() {
    let mut state = AppState::new();
    assert!(set_node_mirror(&mut state, "https://example.test").is_err());
    assert_eq!(state.node_mirror, None);
    set_node_mirror(&mut state, "https://nodejs.org/dist").unwrap();
    assert_eq!(state.node_mirror.as_deref(), Some("https://nodejs.org/dist"));
    set_registry(&mut state, "https://registry.npmjs.org///").unwrap();
    assert_eq!(state.dsh.registry, "https://registry.npmjs.org");
    assert!(set_registry(&mut state, "https://evil.test").is_err());
    assert_eq!(state.dsh.registry, "https://registry.npmjs.org");
}

#[test]
fn dsh_state_snapshot_for_settings() {
    let first = get_dsh_state(&StateStatus::FirstRun);
    assert_eq!(first.registry, "https://registry.npmjs.org");
    assert_eq!(first.node_mirror, builtin_mirrors()[0].base_url);
    let mut state = AppState::new();
    state.dsh.current = Some("0.1.0".to_string());
    state.dsh.installed.push(InstalledDsh {
        version: "0.1.0".to_string(),
        installed_at: 1_431_648_000_000_000_000,
        status: "verified".to_string(),
    });
    let shown = get_dsh_state(&StateStatus::Loaded(state));
    assert_eq!(shown.current.as_deref(), Some("0.1.0"));
    assert_eq!(shown.installed.len(), 1);
    assert_eq!(shown.installed[0].installed_at, "2015-05-15T00:00:00+00:00");
    assert_eq!(shown.node_mirror, builtin_mirrors()[0].base_url);
}

#[test]
fn uninstall_keeps_logs_outside_owned_paths() {
    let paths = managed_runtime_paths("/data");
    assert_eq!(
        paths,
        vec![
            "/data/state.json",
            "/data/node-runtime",
            "/data/dsh",
            "/data/bin",
            "/data/dsh-cli-shim.cjs",
            "/data/npm-cache",
            "/data/npmrc",
            "/data/npmrc-global",
        ]
    );
    assert!(!paths.iter().any(|p| p.ends_with("logs")));
}

#[test]
fn quotes_unix_data_directories() {
    assert_eq!(posix_quote("/tmp/with ' quote"), "'/tmp/with '\"'\"' quote'");
}

#[test]
fn installs_a_version_independent_command_shim() {
    let command = command_contents("/data");
    let helper = helper_contents();
    assert!(command.contains(SHIM_MARKER));
    assert!(command.contains("node-runtime/VERSION"));
    assert!(command.contains("DATA_DIR='/data'\n"));
    assert!(command.ends_with("exec \"$NODE\" \"$DATA_DIR/dsh-cli-shim.cjs\" \"$@\"\n"));
    assert!(helper.contains("current.json"));
    assert!(helper.contains("readlinkSync"));
    assert!(helper.contains("'node_modules/@deepseek-ai/dsh/lib/bin.js'"));
    let result = install_result("/home/u/.local/bin");
    assert_eq!(result.command_path, "/home/u/.local/bin/dsh");
    assert!(result.path_instruction.contains("/home/u/.local/bin"));
    assert_eq!(helper_path("/data"), "/data/dsh-cli-shim.cjs");
}

#[test]
fn refuses_to_overwrite_an_unmanaged_dsh_command() {
    let error = ensure_owned_or_absent("/bin/dsh", Some("#!/bin/sh\necho other dsh\n"))
        .expect_err("must not overwrite");
    assert!(matches!(error, LauncherError::DshCli(message) if message.contains("already exists")));
    assert!(ensure_owned_or_absent("/bin/dsh", None).is_ok());
    assert!(ensure_owned_or_absent("/bin/dsh", Some(&command_contents("/d"))).is_ok());
}

#[test]
fn requires_the_managed_runtime_before_writing_a_command() {
    let error = check_node_runtime(
        Err(LauncherError::NodeDownload("read VERSION file failed".to_string())),
        Ok("/d/node-runtime/node-v22".to_string()),
    )
    .unwrap_err();
    assert!(matches!(error, LauncherError::NodeNotInstalled { .. }));
    assert!(check_node_binary("22.19.0", "/n", true, false).is_err());
    assert!(check_node_binary("22.19.0", "/n", true, true).is_ok());
    let entry = check_dsh_pointer("/d", Ok(Some("0.1.0".to_string()))).unwrap();
    assert_eq!(entry, "/d/dsh/0.1.0/node_modules/@deepseek-ai/dsh/lib/bin.js");
    assert!(check_dsh_pointer("/d", Ok(None)).is_err());
    assert!(check_dsh_entry(&entry, false).is_err());
}

#[test]
fn timestamps_render_with_their_fraction_of_a_second() {
    assert_eq!(timestamp_to_rfc3339(1_431_648_000_000_000_000), "2015-05-15T00:00:00+00:00");
    assert_eq!(
        timestamp_to_rfc3339(1_431_648_000_500_000_000),
        "2015-05-15T00:00:00.500+00:00"
    );
    assert_eq!(timestamp_to_rfc3339(-1), "1969-12-31T23:59:59.999999999+00:00");
    assert_eq!(timestamp_to_rfc3339(i128::MAX), "");
}
