use dsh_launcher::state::check_schema_version;
use dsh_launcher::error::{ErrorDatum, LauncherError, EXPECTED_SCHEMA_VERSION};

fn datum<'a>(data: &'a [(String, ErrorDatum)], key: &str) -> Option<&'a ErrorDatum> {
    data.iter().find(|(k, _)| k == key).map(|(_, v)| v)
}

#[test]
fn kind_and_data_round_trip() {
    let err = LauncherError::StateCorrupt {
        path: "/tmp/state.json".to_string(),
        cause: "unexpected token at line 1 column 1".to_string(),
    };
    assert_eq!(err.kind_str(), "state_corrupt");
    let data = err.data().expect("state_corrupt has data");
    assert_eq!(datum(&data, "path"), Some(&ErrorDatum::Text("/tmp/state.json".to_string())));
}

#[test]
fn unsupported_version_carries_expected() {
    let err = LauncherError::UnsupportedSchemaVersion(99);
    let data = err.data().expect("unsupported_schema_version has data");
    assert_eq!(datum(&data, "version"), Some(&ErrorDatum::Number(99)));
    assert_eq!(datum(&data, "expected"), Some(&ErrorDatum::Number(EXPECTED_SCHEMA_VERSION as u64)));
    assert_eq!(err.message(), "unsupported state schema version: 99 (expected 3)");
}

#[test]
fn io_error_serializes_to_json() {
    let err = LauncherError::Io("missing".to_string());
    let s = err.to_serializable();
    assert_eq!(s.kind, "io");
    assert!(s.message.contains("io error"));
    assert!(s.data.is_none());
}

#[test]
fn serializable_error_includes_user_message() {
    let err = LauncherError::DshNotInstalled { reason: "not installed".to_string() };
    assert!(err.to_serializable().user_message.contains("尚未安装"));
}

#[test]
fn serialization_preserves_kind_and_context() {
    let err = LauncherError::StateCorrupt {
        path: "/tmp/state.json".to_string(),
        cause: "invalid json".to_string(),
    };
    let s = err.to_serializable();
    assert_eq!(s.kind, "state_corrupt");
    assert_eq!(
        datum(s.data.as_ref().unwrap(), "path"),
        Some(&ErrorDatum::Text("/tmp/state.json".to_string()))
    );
}

#[test]
fn cancellation_serializes_with_a_distinct_kind() {
    let s = LauncherError::NodeInstallCancelled { operation_id: "operation-1".to_string() }
        .to_serializable();
    assert_eq!(s.kind, "node_install_cancelled");
    assert_eq!(s.message, "node installation cancelled: operation-1");
}

#[test]
fn node_upgrade_required_serializes_the_version_gap() {
    let s = LauncherError::NodeUpgradeRequired {
        dsh_version: "0.2.0".to_string(),
        current_node: "22.19.0".to_string(),
        engines_node: ">=24.0.0".to_string(),
        suggested_node: "24.4.0".to_string(),
    }
    .to_serializable();
    assert_eq!(s.kind, "node_upgrade_required");
    let data = s.data.unwrap();
    assert_eq!(datum(&data, "dsh_version"), Some(&ErrorDatum::Text("0.2.0".to_string())));
    assert_eq!(datum(&data, "current_node"), Some(&ErrorDatum::Text("22.19.0".to_string())));
    assert_eq!(datum(&data, "engines_node"), Some(&ErrorDatum::Text(">=24.0.0".to_string())));
    assert_eq!(datum(&data, "suggested_node"), Some(&ErrorDatum::Text("24.4.0".to_string())));
}

#[test]
fn node_download_timeout_maps_to_network_hint() {
    let err = LauncherError::NodeDownload("GET http://x failed: operation timed out".to_string());
    assert!(err.user_message().contains("超时"));
}

#[test]
fn node_download_connect_error_maps_to_network_hint() {
    let err = LauncherError::NodeDownload("GET http://x failed: dns error".to_string());
    assert!(err.user_message().contains("无法连接网络"));
}

#[test]
fn node_download_small_body_maps_to_mirror_hint() {
    let err = LauncherError::NodeDownload(
        "GET http://x returned suspiciously small body (Content-Length: 200 bytes)".to_string(),
    );
    assert!(err.user_message().contains("错误页面"));
}

#[test]
fn host_readiness_timeout_maps_to_startup_hint() {
    let err = LauncherError::Host("desktop Host readiness timed out after 90s".to_string());
    assert!(err.user_message().contains("启动超时"));
}

#[test]
fn dsh_version_rollback_without_known_good_hint() {
    let err =
        LauncherError::DshVersion("cannot rollback: no known_good version available".to_string());
    assert!(err.user_message().contains("回滚"));
}

#[test]
fn node_timeout_has_actionable_message() {
    assert!(LauncherError::NodeDownload("timed out".to_string()).user_message().contains("超时"));
}

#[test]
fn cancelled_node_install_has_a_clear_user_message() {
    assert!(LauncherError::NodeInstallCancelled { operation_id: "operation-1".to_string() }
        .user_message()
        .contains("取消"));
}

#[test]
fn node_upgrade_required_asks_the_user_to_confirm() {
    let message = LauncherError::NodeUpgradeRequired {
        dsh_version: "0.2.0".to_string(),
        current_node: "22.19.0".to_string(),
        engines_node: ">=24.0.0".to_string(),
        suggested_node: "24.4.0".to_string(),
    }
    .user_message();
    assert!(message.contains("0.2.0"));
    assert!(message.contains("22.19.0"));
    assert!(message.contains("24.4.0"));
    assert!(message.contains("确认"));
}

#[test]
fn host_readiness_timeout_is_distinguished() {
    assert!(LauncherError::Host("readiness timed out".to_string())
        .user_message()
        .contains("启动超时"));
}

#[test]
fn state_schema_version_must_match() {
    assert!(check_schema_version(u64::from(EXPECTED_SCHEMA_VERSION)).is_ok());
    assert_eq!(
        check_schema_version(99).unwrap_err(),
        LauncherError::UnsupportedSchemaVersion(99)
    );
    assert_eq!(
        check_schema_version(1_000).unwrap_err(),
        LauncherError::UnsupportedSchemaVersion(255)
    );
}
