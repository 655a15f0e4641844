use dsh_launcher::logging::{current_log_file_path, stale_log_threshold_days, LOG_FILE_PREFIX};

#[test]
fn threshold_is_seven_days() {
    assert_eq!(stale_log_threshold_days(), 7);
}

#[test]
fn current_log_file_under_log_dir() {
    let log_dir = "/home/user/.local/share/deepseek-harness-launcher/logs";
    let path = current_log_file_path(log_dir);
    assert!(std::path::Path::new(&path).starts_with(log_dir));
    assert_eq!(
        std::path::Path::new(&path).file_name().and_then(|s| s.to_str()),
        Some(LOG_FILE_PREFIX)
    );
}
