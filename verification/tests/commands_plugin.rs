use dsh_launcher::commands::plugin_command::{
    allow_builds_content, blocked_build_keys, checked_output_summary, installed_plugins,
    list_profile_plugins, merge_allow_builds, parse_allow_builds_entry, output_summary, parse_plugin_command,
    quote_yaml_key, InstalledPlugin, PluginAction, PluginAttempts, PluginStep, ProfileManifest,
};
use dsh_launcher::error::LauncherError;

#[test]
fn parses_managed_add_and_remove_commands() {
    let add = parse_plugin_command("dsh plugin --profile web add github:owner/plugin").unwrap();
    assert_eq!(add.action, PluginAction::Add);
    assert_eq!(add.profile, "web");
    assert_eq!(add.source, "github:owner/plugin");

    let remove =
        parse_plugin_command("dsh plugin --profile personal remove npm:@dsh/theme-paper").unwrap();
    assert_eq!(remove.action, PluginAction::Remove);
}

#[test]
fn rejects_shell_syntax_and_extra_arguments() {
    for command in [
        "dsh plugin --profile web add github:owner/plugin && whoami",
        "dsh plugin --profile web add 'github:owner/plugin'",
        "dsh plugin --profile web --force add github:owner/plugin",
        "dsh plugin --profile ../web add github:owner/plugin",
    ] {
        assert!(matches!(parse_plugin_command(command), Err(LauncherError::DshPlugin(_))));
    }
}

#[test]
fn output_summary_keeps_the_pnpm_build_error() {
    let stdout = b"progress The git-hosted package \"dsh-lumina-tarot@0.1.0\" needs to execute build scripts but is not in the allowBuilds allowlist.";
    let stderr = b"dsh: pnpm failed in profile directory /tmp/web";
    let summary = output_summary(stdout, stderr);
    assert!(summary.contains("dsh-lumina-tarot@0.1.0"));
    assert!(summary.contains("needs to execute build scripts"));
}

#[test]
fn empty_output_summary_says_done() {
    assert_eq!(checked_output_summary(b"", b"").as_deref(), Some("操作已完成。"));
}

#[test]
fn blocked_build_keys_include_git_and_ignored_packages() {
    let output = r#"ERR_PNPM_GIT_DEP_PREPARE_NOT_ALLOWED The git-hosted package "dsh-lumina-tarot@0.1.0" needs to execute build scripts https://codeload.github.com/shetengteng/dsh-lumina-tarot/tar.gz/0123456789abcdef0123456789abcdef01234567 Ignored build scripts: esbuild."#;
    let keys = blocked_build_keys(output, "github:shetengteng/dsh-lumina-tarot");
    assert!(keys.contains(&"dsh-lumina-tarot".to_string()));
    assert!(keys.contains(&"esbuild".to_string()));
    assert!(!keys.iter().any(|key| key.contains('@')));
}

#[test]
fn unrelated_git_failures_do_not_write_allow_builds() {
    let output = "dsh: pnpm failed in profile directory /tmp/web dsh: git-hosted plugins build on install via their prepare script, which pnpm blocks until allowed — add the exact key pnpm printed above under allowBuilds";
    assert!(blocked_build_keys(output, "github:owner/plugin").is_empty());
}

#[test]
fn merge_allow_builds_appends_a_block_and_quotes_scoped_names() {
    let yaml = merge_allow_builds(
        "packages:\n  - .\n",
        &[
            "dsh-lumina-tarot".to_string(),
            "@scope/pkg".to_string(),
            "dsh-lumina-tarot@git+https://github.com/shetengteng/dsh-lumina-tarot.git".to_string(),
        ],
    );
    assert!(yaml.contains("allowBuilds:\n"));
    assert!(yaml.contains("  dsh-lumina-tarot: true\n"));
    assert!(yaml.contains("  '@scope/pkg': true\n"));
    assert!(!yaml.contains("git+https://"));
}

#[test]
fn merge_allow_builds_drops_git_union_keys() {
    let yaml = "allowBuilds:\n  dsh-lumina-tarot: true\n  dsh-lumina-tarot@git+https://github.com/shetengteng/dsh-lumina-tarot.git: true\n";
    let merged = merge_allow_builds(yaml, &[]);
    assert!(merged.contains("  dsh-lumina-tarot: true\n"));
    assert!(!merged.contains("git+https://"));
}

#[test]
fn merge_allow_builds_repairs_duplicate_blocks() {
    let yaml = "packages:\n  - .\nallowBuilds:\n  esbuild: true\nallowBuilds:\n  leftover: true\n";
    let merged = merge_allow_builds(yaml, &["dsh-lumina-tarot".to_string()]);
    assert_eq!(merged.matches("allowBuilds:").count(), 1);
    assert!(merged.contains("  esbuild: true\n"));
    assert!(merged.contains("  leftover: true\n"));
    assert!(merged.contains("  dsh-lumina-tarot: true\n"));
}

#[test]
fn merge_allow_builds_is_idempotent_for_the_same_keys() {
    let keys = ["esbuild".to_string(), "@scope/pkg".to_string()];
    let once = merge_allow_builds("packages:\n  - .\n", &keys);
    let twice = merge_allow_builds(&once, &keys);
    assert_eq!(once, twice);
}

#[test]
fn allow_builds_needs_a_valid_key() {
    assert_eq!(allow_builds_content(None, &["bad key".to_string()]), None);
    let written = allow_builds_content(None, &["esbuild".to_string()]).unwrap();
    assert!(written.contains("  esbuild: true\n"));
}

#[test]
fn quotes_only_keys_that_need_it() {
    assert_eq!(quote_yaml_key("esbuild"), "esbuild");
    assert_eq!(quote_yaml_key("@scope/pkg"), "'@scope/pkg'");
    assert_eq!(quote_yaml_key("it's:"), "'it''s:'");
}

#[test]
fn lists_only_dependency_managed_bundles() {
    let mut manifest = ProfileManifest::new(vec![
        "@deepseek-ai/dsh-base".to_string(),
        "@deepseek-ai/dsh-web-app".to_string(),
        "dshmarket".to_string(),
        "dsh-lumina-tarot".to_string(),
    ]);
    manifest.insert_dependency("plain-lib".to_string(), "2.0.0".to_string());
    manifest.insert_dependency("dshmarket".to_string(), "1.31.1".to_string());
    manifest.insert_dependency(
        "dsh-lumina-tarot".to_string(),
        "link:/tmp/dsh-lumina-tarot".to_string(),
    );

    assert_eq!(
        installed_plugins(&manifest),
        vec![
            InstalledPlugin {
                name: "dsh-lumina-tarot".to_string(),
                spec: "link:/tmp/dsh-lumina-tarot".to_string(),
            },
            InstalledPlugin { name: "dshmarket".to_string(), spec: "1.31.1".to_string() },
        ]
    );
}

#[test]
fn missing_profile_manifest_is_an_empty_list() {
    let listed = list_profile_plugins("web", None).unwrap();
    assert_eq!(listed.profile, "web");
    assert!(listed.plugins.is_empty());
}

#[test]
fn reads_installed_plugins_from_the_profile_manifest() {
    let mut manifest = ProfileManifest::new(vec!["dshmarket".to_string()]);
    manifest.insert_dependency("dshmarket".to_string(), "1.31.1".to_string());
    let listed = list_profile_plugins("web", Some(&manifest)).unwrap();
    assert_eq!(
        listed.plugins,
        vec![InstalledPlugin { name: "dshmarket".to_string(), spec: "1.31.1".to_string() }]
    );
    assert!(list_profile_plugins("../web", None).is_err());
}

#[test]
fn plugin_attempts_stop_after_three_and_report_the_last_one() {
    let command =
        parse_plugin_command("dsh plugin --profile web add github:shetengteng/dsh-lumina-tarot")
            .unwrap();
    let blocked = r#"ERR_PNPM_GIT_DEP_PREPARE_NOT_ALLOWED The git-hosted package "dsh-lumina-tarot@0.1.0" needs to execute build scripts https://codeload.github.com/shetengteng/dsh-lumina-tarot/tar.gz/0123456789abcdef0123456789abcdef01234567 Ignored build scripts: esbuild."#;
    let mut attempts = PluginAttempts::new();
    for code in 1..=3 {
        assert!(attempts.may_attempt());
        match attempts.record(&command, false, Some(code), blocked, "blocked") {
            PluginStep::AllowBuildsAndRetry(keys) => {
                assert!(keys.contains(&"dsh-lumina-tarot".to_string()))
            }
            other => panic!("unexpected step {other:?}"),
        }
    }
    assert!(!attempts.may_attempt());
    assert_eq!(
        attempts.failure(),
        LauncherError::DshPlugin("dsh plugin command exited with code Some(3): blocked".to_string())
    );
}

#[test]
fn plugin_attempt_success_is_the_result() {
    let command = parse_plugin_command("dsh plugin --profile web remove npm:@dsh/theme-paper").unwrap();
    let mut attempts = PluginAttempts::new();
    match attempts.record(&command, true, Some(0), "", "操作已完成。") {
        PluginStep::Done(result) => assert_eq!(result.summary, "操作已完成。"),
        other => panic!("unexpected step {other:?}"),
    }
    let mut failed = PluginAttempts::new();
    assert!(matches!(
        failed.record(&command, false, Some(1), "boom", "boom"),
        PluginStep::GiveUp
    ));
}

#[test]
fn quoted_keys_read_back_as_the_package_name() {
    for key in ["@scope/pkg", "dsh-lumina-tarot", "-dash", "esbuild"] {
        for value in ["true", "false"] {
            let line = format!("  {}: {}", quote_yaml_key(key), value);
            assert_eq!(
                parse_allow_builds_entry(&line),
                Some((key.to_string(), value.to_string()))
            );
        }
    }
}

#[test]
fn manifest_dependencies_stay_sorted_and_unique() {
    let mut manifest = ProfileManifest::new(Vec::new());
    manifest.insert_dependency("zeta".to_string(), "1".to_string());
    manifest.insert_dependency("alpha".to_string(), "1".to_string());
    manifest.insert_dependency("mid".to_string(), "1".to_string());
    manifest.insert_dependency("alpha".to_string(), "2".to_string());
    assert_eq!(
        manifest.dependencies(),
        &vec![
            ("alpha".to_string(), "2".to_string()),
            ("mid".to_string(), "1".to_string()),
            ("zeta".to_string(), "1".to_string()),
        ]
    );
    assert!(manifest.bundles().is_empty());
}

#[test]
fn merging_again_changes_nothing() {
    let keys = vec!["dsh-lumina-tarot".to_string(), "@scope/pkg".to_string(), "bad key".to_string()];
    let subset = vec!["@scope/pkg".to_string()];
    for yaml in [
        "",
        "packages:\n  - .\n",
        "packages:\n  - .",
        "allowBuilds:\n  esbuild: true\n  leftover: false\nother: 1\nallowBuilds:\n  x: true\n",
        "a: 1\r\nallowBuilds:\r\n  esbuild: true\r\n",
        "allowBuilds:\n",
    ] {
        let once = merge_allow_builds(yaml, &keys);
        assert_eq!(merge_allow_builds(&once, &keys), once);
        assert_eq!(merge_allow_builds(&once, &subset), once);
        assert_eq!(merge_allow_builds(&once, &[]), once);
    }
}
