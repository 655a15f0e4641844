use dsh_launcher::dsh::install::{
    cli_entry, default_log, install_outcome, managed_npm_cache_dir, managed_npm_userconfig,
    npm_exit_failure, npm_install_command, npm_install_env, npm_timeout, options_from_manifest,
    read_cli_entry, verify_install, DshInstallOperations, InstallDshOptions,
};
use dsh_launcher::dsh::registry::{
    check_manifest_version, check_metadata_name, manifest_url, metadata_url, DistInfo, DistTags,
    EnginesField, PackageManifest, PackageMetadata, RegistryCache, REGISTRY_CACHE_TTL_MS,
};
use dsh_launcher::error::LauncherError;

fn make_opts(dir: &str, version: &str) -> InstallDshOptions {
    InstallDshOptions {
        version: version.to_string(),
        registry: "https://registry.npmmirror.com".to_string(),
        dsh_dir: dir.to_string(),
        node_executable: "node".to_string(),
        npm_script: None,
        npm_cache: None,
        npm_userconfig: None,
        timeout_secs: 0,
    }
}

fn manifest() -> PackageManifest {
    PackageManifest {
        version: "0.1.0".to_string(),
        engines: EnginesField { node: String::new() },
        dist: DistInfo {
            integrity: "sha512-aaa==".to_string(),
            tarball: "https://example.com/dsh-0.1.0.tgz".to_string(),
        },
    }
}

#[test]
fn option_paths_are_under_the_requested_version() {
    let opts = make_opts("/tmp/t", "0.1.0");
    assert_eq!(opts.version_dir(), "/tmp/t/0.1.0");
    assert_eq!(opts.package_json_path(), "/tmp/t/0.1.0/package.json");
    assert_eq!(opts.dsh_module_dir(), "/tmp/t/0.1.0/node_modules/@deepseek-ai/dsh");
    assert_eq!(opts.cli_entry_path(), format!("{}/lib/bin.js", opts.dsh_module_dir()));
}

#[test]
fn verify_install_requires_the_cli_entry() {
    let opts = make_opts("/tmp/t", "0.1.0");
    assert!(verify_install(&opts, false).unwrap_err().message().contains("not found"));
    verify_install(&opts, true).unwrap();
}

#[test]
fn cli_entry_helpers_return_and_validate_the_expected_path() {
    let entry = cli_entry("/tmp/t");
    assert_eq!(entry, "/tmp/t/node_modules/@deepseek-ai/dsh/lib/bin.js");
    assert!(read_cli_entry("/tmp/t", false).unwrap_err().message().contains("not found"));
    assert_eq!(read_cli_entry("/tmp/t", true).unwrap(), entry);
}

#[test]
fn options_from_manifest_uses_managed_node_paths() {
    let opts = options_from_manifest(
        &manifest(),
        "https://registry.npmmirror.com",
        "/tmp/t",
        "/tmp/t/node-v22",
    );
    assert_eq!(opts.version, "0.1.0");
    assert_eq!(opts.registry, "https://registry.npmmirror.com");
    assert!(opts.npm_script.is_some());
    assert_eq!(opts.npm_cache.as_deref(), Some("/tmp/t/npm-cache"));
    assert_eq!(opts.npm_userconfig.as_deref(), Some("/tmp/t/npmrc"));
    assert_eq!(opts.node_executable, "/tmp/t/node-v22/bin/node");
    assert_eq!(managed_npm_cache_dir("node-v22"), "npm-cache");
    assert_eq!(managed_npm_userconfig("/"), "/npmrc");
}

#[test]
fn run_npm_install_requires_the_manifest() {
    let error = npm_install_command(&make_opts("/tmp/t", "0.1.0"), false).unwrap_err();
    assert!(error.message().contains("package.json not found"));
}

#[test]
fn run_npm_install_requires_managed_npm() {
    let error = npm_install_command(&make_opts("/tmp/t", "0.1.0"), true).unwrap_err();
    assert!(error.message().contains("managed npm"));
}

#[test]
fn npm_install_runs_the_managed_npm_script() {
    let mut opts = make_opts("/tmp/t", "0.1.0");
    opts.node_executable = "/rt/bin/node".to_string();
    opts.npm_script = Some("/rt/npm-cli.js".to_string());
    let (program, args) = npm_install_command(&opts, true).unwrap();
    assert_eq!(program, "/rt/bin/node");
    assert_eq!(
        args,
        vec![
            "/rt/npm-cli.js",
            "install",
            "--prod",
            "--registry",
            "https://registry.npmmirror.com",
            "--no-audit",
            "--no-fund",
            "--loglevel",
            "info",
        ]
    );
    assert_eq!(
        npm_install_env(Some("/usr/bin".to_string()), None, Some("C:\\u".to_string())),
        vec![
            ("PATH".to_string(), "/usr/bin".to_string()),
            ("USERPROFILE".to_string(), "C:\\u".to_string()),
        ]
    );
    assert_eq!(
        npm_install_env(None, Some("/home/u".to_string()), Some("x".to_string())),
        vec![("PATH".to_string(), String::new()), ("HOME".to_string(), "/home/u".to_string())]
    );
}

#[test]
fn install_dsh_cleans_the_version_directory_after_spawn_failure() {
    let spawn_failed = LauncherError::DshInstall("spawn npm install failed: not found".to_string());
    let error = install_outcome(Err(spawn_failed), Ok(()), "/tmp/t/0.1.0").unwrap_err();
    assert!(error.message().contains("install failed"));
    assert_eq!(
        error.message(),
        "dsh install error: install failed: dsh install error: spawn npm install failed: not found (version dir cleaned: /tmp/t/0.1.0)"
    );
    let verify_failed = LauncherError::DshInstall("dsh entry not found: expected x".to_string());
    assert!(install_outcome(Ok(()), Err(verify_failed), "/d")
        .unwrap_err()
        .message()
        .contains("verify failed"));
    assert!(install_outcome(Ok(()), Ok(()), "/d").is_ok());
    assert_eq!(
        npm_exit_failure(Some(1)).message(),
        "dsh install error: npm install failed: exit code Some(1) (see logs for details)"
    );
    assert_eq!(npm_timeout(30).message(), "dsh install error: npm install timed out after 30s");
}

#[test]
fn default_log_accepts_output() {
    default_log()("test line");
}

#[test]
fn cancellation_matches_the_active_installation() {
    let mut operations = DshInstallOperations::new();
    let token = operations.register("install-1").unwrap();

    assert!(!operations.cancel("other-install"));
    assert!(operations.check(token).is_ok());
    assert!(operations.cancel("install-1"));
    assert!(operations.check(token).is_err());
}

#[test]
fn dropping_active_installation_unregisters_it() {
    let mut operations = DshInstallOperations::new();
    let token = operations.register("install-1").unwrap();

    operations.finish("install-1");
    assert!(!operations.cancel("install-1"));
    assert!(operations.check(token).is_err());
}

#[test]
fn only_one_installation_runs_at_a_time() {
    let mut operations = DshInstallOperations::new();
    assert!(operations.register("  ").is_err());
    let first = operations.register("a").unwrap();
    assert_eq!(
        operations.register("b").unwrap_err().message(),
        "dsh install error: another dsh installation is already running"
    );
    operations.finish("a");
    let second = operations.register("b").unwrap();
    assert_ne!(first, second);
}

#[test]
fn registry_urls_trim_trailing_slashes() {
    assert_eq!(metadata_url("https://registry.npmjs.org/"), "https://registry.npmjs.org/@deepseek-ai/dsh");
    assert_eq!(
        manifest_url("https://registry.npmjs.org//", "0.1.0"),
        "https://registry.npmjs.org/@deepseek-ai/dsh/0.1.0"
    );
}

fn metadata(latest: &str) -> PackageMetadata {
    PackageMetadata {
        name: "@deepseek-ai/dsh".to_string(),
        dist_tags: DistTags { latest: latest.to_string() },
        versions: vec![("0.1.0".to_string(), Ok(manifest()))],
    }
}

#[test]
fn fetched_metadata_is_checked() {
    assert!(check_metadata_name(&metadata("0.1.0")).is_ok());
    let mut other = metadata("0.1.0");
    other.name = "left-pad".to_string();
    assert_eq!(
        check_metadata_name(&other).unwrap_err().message(),
        "dsh registry error: registry returned wrong package name: expected @deepseek-ai/dsh, got left-pad"
    );
    assert!(check_manifest_version(&manifest(), "0.1.0").is_ok());
    assert!(check_manifest_version(&manifest(), "0.2.0").is_err());
}

#[test]
fn cache_serves_fresh_metadata_only() {
    let mut cache = RegistryCache::new();
    assert!(cache.is_empty());
    cache.put_metadata("https://registry.npmjs.org", metadata("0.1.0"), 1_000);
    assert_eq!(cache.len(), 1);
    let hit = cache.get_metadata("https://registry.npmjs.org", 1_000 + REGISTRY_CACHE_TTL_MS - 1);
    assert_eq!(hit.map(|m| m.dist_tags.latest), Some("0.1.0".to_string()));
    assert!(cache.get_metadata("https://registry.npmjs.org", 1_000 + REGISTRY_CACHE_TTL_MS).is_none());
    assert!(cache.get_metadata("https://registry.npmmirror.com", 1_000).is_none());
    cache.put_metadata("https://registry.npmjs.org", metadata("0.2.0"), 2_000);
    assert_eq!(cache.len(), 1);
    assert_eq!(
        cache.get_metadata("https://registry.npmjs.org", 2_000).map(|m| m.dist_tags.latest),
        Some("0.2.0".to_string())
    );
    cache.invalidate();
    assert!(cache.is_empty());
}
