use canopus::text::u64_to_decimal;
use canopus::desktop::{
    claim_after_start, next_generation, remove_after_end, LogEventPayload, LogStream, TailClaim,
};
use canopus::error::CoreError;
use canopus::health::TimeSpan;
use canopus::logging;
use canopus::process::{
    exit_details, mock_pid, signal_result, MockInstruction, MockManagedProcess, SignalOutcome,
    UnixProcessAdapter, SIGKILL, SIGTERM,
};
use canopus::storage::port_from_column;
use canopus::utilities::{validate_config, validate_config_data, DaemonConfig};

#[test]
fn test_validate_config_data_empty() {
    let result = validate_config_data("");
    assert!(result.is_err());
    if let Err(CoreError::ValidationError(msg)) = result {
        assert!(msg.contains("empty"));
    }
}

#[test]
fn test_validate_config_data_valid_json() {
    let result = validate_config_data(r#"{"key": "value"}"#);
    assert!(result.is_ok());
}

#[test]
fn test_validate_config_data_invalid_json() {
    let result = validate_config_data("{invalid json");
    assert!(result.is_err());
    if let Err(CoreError::ValidationError(msg)) = result {
        assert!(msg.contains("Invalid JSON"));
    }
}

#[test]
fn test_validate_config() {
    let mut config = DaemonConfig::default();
    assert!(validate_config(&config).is_ok());

    config.port = 0;
    assert!(validate_config(&config).is_err());

    config.port = 8080;
    config.host = "".to_string();
    assert!(validate_config(&config).is_err());

    config.host = "localhost".to_string();
    config.max_connections = 0;
    assert!(validate_config(&config).is_err());
}

#[test]
fn daemon_config_messages() {
    let mut config = DaemonConfig::default();
    assert_eq!(config.port, 49384);
    config.port = 0;
    match validate_config(&config) {
        Err(CoreError::ConfigurationError(m)) => assert_eq!(m, "Port cannot be 0"),
        other => panic!("unexpected {other:?}"),
    }
}

#[test]
fn log_stream_stdout_converts_correctly() {
    assert_eq!(LogStream::from(logging::LogStream::Stdout), LogStream::Stdout);
}

#[test]
fn log_stream_stderr_converts_correctly() {
    assert_eq!(LogStream::from(logging::LogStream::Stderr), LogStream::Stderr);
}

#[test]
fn log_event_payload_holds_its_fields() {
    let payload = LogEventPayload {
        service_id: "my-service".to_string(),
        stream: LogStream::Stdout,
        content: "hello world".to_string(),
        timestamp: "2026-01-01T00:00:00Z".to_string(),
    };
    let copy = payload.clone();
    assert_eq!(copy.service_id, "my-service");
    assert_eq!(copy.stream, LogStream::Stdout);
}

#[test]
fn tail_generations_and_claims() {
    assert_eq!(next_generation(None), 1);
    assert_eq!(next_generation(Some(4)), 5);
    assert_eq!(next_generation(Some(u64::MAX)), u64::MAX);

    assert_eq!(claim_after_start(None, 3), TailClaim::Abort);
    assert_eq!(claim_after_start(Some(4), 3), TailClaim::Abort);
    assert_eq!(claim_after_start(Some(2), 3), TailClaim::EvictAndClaim);
    assert_eq!(claim_after_start(Some(3), 3), TailClaim::Claim);

    assert!(remove_after_end(Some(3), 3));
    assert!(!remove_after_end(Some(4), 3));
    assert!(!remove_after_end(None, 3));
}

#[test]
fn signal_outcomes_judged() {
    assert!(signal_result("SIGTERM", 42, SignalOutcome::Delivered).is_ok());
    assert!(signal_result("SIGTERM", 42, SignalOutcome::NoSuchGroup).is_ok());
    assert!(signal_result("SIGKILL", 42, SignalOutcome::PermissionDenied).is_ok());
    match signal_result("SIGKILL", 42, SignalOutcome::Failed("EINVAL".to_string())) {
        Err(CoreError::ProcessSignal(m)) => {
            assert_eq!(m, "Failed to send SIGKILL to process group 42: EINVAL")
        }
        other => panic!("unexpected {other:?}"),
    }
}

#[test]
fn exit_details_prefer_code() {
    assert_eq!(exit_details(Some(3), Some(9)), (Some(3), None));
    assert_eq!(exit_details(None, Some(9)), (None, Some(9)));
    assert_eq!(exit_details(None, None), (None, None));
}

#[test]
fn mock_process_lifecycle() {
    let _adapter = UnixProcessAdapter::new();
    let instruction = MockInstruction::default();
    assert_eq!(instruction.exit_code, Some(0));
    assert_eq!(instruction.exit_delay, TimeSpan::from_millis(100));

    let mut p = MockManagedProcess::new(mock_pid(5), instruction);
    assert_eq!(p.pid, 1005);
    assert!(!p.should_exit(TimeSpan::from_millis(99)));
    assert!(p.should_exit(TimeSpan::from_millis(100)));
    let exit = p.create_exit("t".to_string());
    assert_eq!(exit.exit_code, Some(0));
    assert_eq!(exit.signal, None);

    p.terminate();
    assert!(p.should_exit(TimeSpan::from_secs(0)));
    assert_eq!(p.create_exit("t".to_string()).signal, Some(SIGTERM));
    p.kill();
    let exit = p.create_exit("t".to_string());
    assert_eq!(exit.signal, Some(SIGKILL));
    assert_eq!(exit.exit_code, None);
}

#[test]
fn mock_process_ignoring_signals_keeps_instructed_exit() {
    let instruction = MockInstruction {
        exit_delay: TimeSpan::from_secs(2),
        exit_code: Some(1),
        signal: None,
        responds_to_signals: false,
    };
    let mut p = MockManagedProcess::new(7, instruction);
    p.kill();
    let exit = p.create_exit("t".to_string());
    assert_eq!(exit.exit_code, Some(1));
    assert_eq!(exit.signal, None);
    assert_eq!(mock_pid(u32::MAX), u32::MAX % 65536 + 1000);
}

#[test]
fn fetch_port_errors_on_invalid_value() {
    assert_eq!(port_from_column(Some(Some(70000))).unwrap_err(), "Invalid port value in database: 70000");
    assert_eq!(port_from_column(Some(Some(-1))).unwrap_err(), "Invalid port value in database: -1");
    assert_eq!(
        port_from_column(Some(Some(i64::MIN))).unwrap_err(),
        format!("Invalid port value in database: {}", i64::MIN)
    );
    assert_eq!(port_from_column(Some(Some(8080))).unwrap(), Some(8080));
    assert_eq!(port_from_column(Some(Some(0))).unwrap(), Some(0));
    assert_eq!(port_from_column(Some(None)).unwrap(), None);
    assert_eq!(port_from_column(None).unwrap(), None);
}

#[test]
fn test_signal_nonexistent_process_group() {
    // A group that no longer exists counts as already stopped, for both signals.
    assert!(signal_result("SIGTERM", 999_999, SignalOutcome::NoSuchGroup).is_ok());
    assert!(signal_result("SIGKILL", 999_999, SignalOutcome::NoSuchGroup).is_ok());
}

#[test]
fn decimal_rendering_of_integers() {
    assert_eq!(u64_to_decimal(0), "0");
    assert_eq!(u64_to_decimal(7), "7");
    assert_eq!(u64_to_decimal(10), "10");
    assert_eq!(u64_to_decimal(1_234_567_890), "1234567890");
    assert_eq!(u64_to_decimal(u64::MAX), u64::MAX.to_string());
}
