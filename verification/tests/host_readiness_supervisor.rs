use dsh_launcher::host::readiness::{
    parse_readiness_line, Origin, ReadinessError, ReadinessParser, MAX_STARTUP_OUTPUT_CHARS,
};
use dsh_launcher::host::supervisor::{
    append_output, HostSupervisorError, ReadinessOutcome, StartDecision, SupervisorCore,
    SupervisorPhase,
};

#[test]
fn parses_simple_readiness_line() {
    let mut parser = ReadinessParser::new();
    let result = parser.push("dsh web: http://127.0.0.1:51329/\n").unwrap();
    assert_eq!(result.as_ref().map(Origin::as_str), Some("http://127.0.0.1:51329"));
    assert_eq!(parser.finalize().unwrap().as_str(), "http://127.0.0.1:51329");
}

#[test]
fn ignores_non_readiness_lines() {
    let mut parser = ReadinessParser::new();
    assert_eq!(parser.push("listening on port 0\n").unwrap(), None);
    let result = parser.push("warmup complete\ndsh web: http://localhost:3000/\n").unwrap();
    assert_eq!(result.as_ref().map(Origin::as_str), Some("http://localhost:3000"));
}

#[test]
fn handles_split_chunks() {
    let mut parser = ReadinessParser::new();
    assert_eq!(parser.push("dsh web: http://127.").unwrap(), None);
    assert_eq!(parser.push("0.0.1:42").unwrap(), None);
    assert_eq!(
        parser.push("/\n").unwrap().as_ref().map(Origin::as_str),
        Some("http://127.0.0.1:42")
    );
}

#[test]
fn rejects_invalid_readiness_urls() {
    for line in [
        "dsh web: http://example.com:8080/\n",
        "dsh web: https://127.0.0.1:8080/\n",
        "dsh web: http://127.0.0.1/\n",
        "dsh web: http://127.0.0.1:0/\n",
        "dsh web: http://127.0.0.1:8080/?x=1\n",
        "dsh web: http://127.0.0.1:8080/#frag\n",
    ] {
        let error = ReadinessParser::new().push(line).unwrap_err();
        assert!(matches!(error, ReadinessError::InvalidUrl(_)));
    }
}

#[test]
fn rejects_conflicting_readiness_urls() {
    let mut parser = ReadinessParser::new();
    parser.push("dsh web: http://127.0.0.1:8080/\n").unwrap();
    let error = parser.push("dsh web: http://127.0.0.1:9000/\n").unwrap_err();
    assert!(matches!(error, ReadinessError::Conflicting { .. }));
}

#[test]
fn duplicate_readiness_url_is_idempotent() {
    let mut parser = ReadinessParser::new();
    let first = parser.push("dsh web: http://127.0.0.1:8080/\n").unwrap();
    let second = parser.push("dsh web: http://127.0.0.1:8080/\n").unwrap();
    assert_eq!(first, second);
}

#[test]
fn finalize_requires_readiness() {
    let mut parser = ReadinessParser::new();
    parser.push("just some log\n").unwrap();
    assert!(matches!(parser.finalize().unwrap_err(), ReadinessError::NoReadiness));
}

#[test]
fn finalize_parses_pending_tail() {
    let mut parser = ReadinessParser::new();
    parser.push("dsh web: http://127.0.0.1:8080/").unwrap();
    assert_eq!(parser.finalize().unwrap().as_str(), "http://127.0.0.1:8080");
}

#[test]
fn strips_carriage_return() {
    let mut parser = ReadinessParser::new();
    let result = parser.push("dsh web: http://127.0.0.1:8080/\r\n").unwrap();
    assert_eq!(result.as_ref().map(Origin::as_str), Some("http://127.0.0.1:8080"));
}

#[test]
fn each_startup_parser_accepts_its_own_random_port() {
    let mut first = ReadinessParser::new();
    first.push("dsh web: http://127.0.0.1:49808/\n").expect("first startup readiness");
    let mut restarted = ReadinessParser::new();
    let origin = restarted
        .push("dsh web: http://127.0.0.1:52819/\n")
        .expect("restarted host readiness")
        .expect("restarted host origin");
    assert_eq!(origin.as_str(), "http://127.0.0.1:52819");
}

#[test]
fn other_lines_parse_to_nothing() {
    assert_eq!(parse_readiness_line("hello").unwrap(), None);
}

#[test]
fn append_output_truncates_head_when_over_limit() {
    let mut buffer: Vec<char> = Vec::new();
    append_output(&mut buffer, &"x".repeat(MAX_STARTUP_OUTPUT_CHARS + 100));
    let text: String = buffer.iter().collect();
    assert_eq!(text.len(), MAX_STARTUP_OUTPUT_CHARS);
}

#[test]
fn append_output_respects_char_boundary() {
    let mut buffer: Vec<char> = Vec::new();
    let input = "中".repeat(MAX_STARTUP_OUTPUT_CHARS / 3 + 100);
    append_output(&mut buffer, &input);
    let output: String = buffer.iter().collect();
    assert!(output.len() <= MAX_STARTUP_OUTPUT_CHARS + 3);
    assert!(output.is_char_boundary(output.len()));
    assert_eq!(output.len(), MAX_STARTUP_OUTPUT_CHARS / 3 * 3);
}

#[test]
fn append_output_keeps_short_output() {
    let mut buffer: Vec<char> = "ab".chars().collect();
    append_output(&mut buffer, "cd\n");
    assert_eq!(buffer.iter().collect::<String>(), "abcd\n");
}

fn ready(port: u16) -> Origin {
    let mut parser = ReadinessParser::new();
    parser.push(&format!("dsh web: http://127.0.0.1:{port}/\n")).unwrap().unwrap()
}

#[test]
fn start_after_shutdown_errors() {
    let mut core = SupervisorCore::new();
    core.shutdown();
    assert!(matches!(
        core.start_request(),
        StartDecision::Refuse(HostSupervisorError::AlreadyShutdown)
    ));
    assert!(core.restart_request().is_err());
}

#[test]
fn ready_host_is_reused_until_it_exits() {
    let mut core = SupervisorCore::new();
    assert!(matches!(core.start_request(), StartDecision::Spawn));
    let (origin, generation) = core.on_readiness(ReadinessOutcome::Ready(ready(43123))).unwrap();
    assert_eq!(origin.as_str(), "http://127.0.0.1:43123");
    assert_eq!(generation, 1);
    match core.start_request() {
        StartDecision::Reuse(o) => assert_eq!(o.as_str(), "http://127.0.0.1:43123"),
        _ => panic!("expected the cached origin"),
    }
    assert!(core.take_exited_child(generation));
    assert!(core.on_exit(generation));
    assert!(matches!(core.start_request(), StartDecision::Spawn));
}

#[test]
fn restart_does_not_report_intentional_exit() {
    let mut core = SupervisorCore::new();
    let (_, first) = core.on_readiness(ReadinessOutcome::Ready(ready(43123))).unwrap();
    core.restart_request().unwrap();
    let (_, second) = core.on_readiness(ReadinessOutcome::Ready(ready(43124))).unwrap();
    assert_ne!(first, second);
    assert!(!core.take_exited_child(first));
    assert!(!core.on_exit(first));
}

#[test]
fn shutdown_has_no_unexpected_exit() {
    let mut core = SupervisorCore::new();
    let (_, generation) = core.on_readiness(ReadinessOutcome::Ready(ready(43123))).unwrap();
    core.shutdown();
    assert!(!core.on_exit(generation));
}

#[test]
fn readiness_failures_become_start_errors() {
    let mut core = SupervisorCore::new();
    let error = core.on_readiness(ReadinessOutcome::TimedOut(40)).unwrap_err();
    assert!(matches!(error, HostSupervisorError::ReadinessTimeout(_)));
    assert_eq!(error.message(), "desktop Host readiness timed out after 40ms");
    assert_eq!(
        HostSupervisorError::ReadinessTimeout(1500).message(),
        "desktop Host readiness timed out after 1.5s"
    );
    let closed = core.on_readiness(ReadinessOutcome::ChannelClosed).unwrap_err();
    assert_eq!(closed.message(), "readiness channel closed unexpectedly");
    let failed = core.on_readiness(ReadinessOutcome::Failed(ReadinessError::NoReadiness)).unwrap_err();
    assert_eq!(failed.message(), "Host exited before emitting its readiness URL");
    assert!(matches!(core.start_request(), StartDecision::Spawn));
    assert_eq!(
        HostSupervisorError::ExitedBeforeReadiness { code: Some(17), signal: None }.message(),
        "desktop Host exited before readiness (code Some(17), signal None)"
    );
    let _ = SupervisorPhase::Ready;
}

#[test]
fn default_config_waits_ninety_seconds_for_readiness_and_five_for_shutdown() {
    let config = dsh_launcher::host::supervisor::HostSupervisorConfig::default();
    assert_eq!(config.readiness_timeout_ms, 90_000);
    assert_eq!(config.shutdown_timeout_ms, 5_000);
}
