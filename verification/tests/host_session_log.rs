use dsh_launcher::host::session_log::{
    session_log_exhausted, session_log_file_name, session_timestamp, MAX_SESSION_LOG_SEQUENCE,
};

/// 2026-08-17T05:04:03Z.
const STARTED_AT: i64 = 1_786_943_043;

#[test]
fn session_timestamp_has_nanosecond_precision() {
    assert_eq!(
        session_timestamp(STARTED_AT, 0).as_deref(),
        Some("20260817T050403.000000000Z")
    );
    assert_eq!(
        session_timestamp(STARTED_AT, 123_456_789).as_deref(),
        Some("20260817T050403.123456789Z")
    );
}

#[test]
fn session_timestamp_out_of_range_is_none() {
    assert_eq!(session_timestamp(i64::MAX, 0), None);
    assert_eq!(session_timestamp(STARTED_AT, 2_000_000_000), None);
}

#[test]
fn first_session_log_has_no_sequence_suffix() {
    let timestamp = session_timestamp(STARTED_AT, 0).unwrap();
    assert_eq!(
        session_log_file_name(&timestamp, 0),
        "dsh-20260817T050403.000000000Z.log"
    );
}

#[test]
fn later_session_logs_with_the_same_timestamp_are_numbered() {
    let timestamp = session_timestamp(STARTED_AT, 0).unwrap();
    let first = session_log_file_name(&timestamp, 0);
    let second = session_log_file_name(&timestamp, 1);
    assert_ne!(first, second);
    assert_eq!(second, "dsh-20260817T050403.000000000Z-1.log");
    assert_eq!(
        session_log_file_name(&timestamp, MAX_SESSION_LOG_SEQUENCE),
        "dsh-20260817T050403.000000000Z-999.log"
    );
}

#[test]
fn exhausted_session_log_names_the_timestamp() {
    assert_eq!(
        session_log_exhausted("20260817T050403.000000000Z"),
        "could not reserve a unique dsh session log for 20260817T050403.000000000Z"
    );
}
