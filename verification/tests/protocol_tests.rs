use canopus::error::DaemonError;
use canopus::protocol::{frame_payload, DaemonState, Message, Response, MAX_FRAME_SIZE};

#[test]
fn status_reports_running_flag_and_identity() {
    let mut daemon = DaemonState::new();
    match daemon.process_message(Message::Status, 12, 4321, "0.1.0") {
        Response::Status { running, uptime_seconds, pid, version } => {
            assert!(!running);
            assert_eq!(uptime_seconds, 12);
            assert_eq!(pid, 4321);
            assert_eq!(version.as_deref(), Some("0.1.0"));
        }
        other => panic!("unexpected {other:?}"),
    }
}

#[test]
fn start_twice_is_refused_with_code() {
    let mut daemon = DaemonState::new();
    assert_eq!(
        daemon.process_message(Message::Start, 0, 1, "v"),
        Response::Success { message: "Daemon started".to_string() }
    );
    assert!(daemon.running);
    assert_eq!(
        daemon.process_message(Message::Start, 0, 1, "v"),
        Response::Error {
            message: "Daemon is already running".to_string(),
            code: Some("DAEMON_ALREADY_RUNNING".to_string()),
        }
    );
}

#[test]
fn stop_restart_and_custom_are_acknowledged() {
    let mut daemon = DaemonState { running: true };
    assert_eq!(
        daemon.process_message(Message::Restart, 0, 1, "v"),
        Response::Success { message: "Restart acknowledged".to_string() }
    );
    assert!(daemon.running);
    assert_eq!(
        daemon.process_message(Message::Custom { cmd: "ping".to_string() }, 0, 1, "v"),
        Response::Success { message: "Processed: ping".to_string() }
    );
    assert_eq!(
        daemon.process_message(Message::Stop, 0, 1, "v"),
        Response::Success { message: "Daemon stopping".to_string() }
    );
    assert!(!daemon.running);
    daemon.running = true;
    daemon.stop();
    assert!(!daemon.running);
}

#[test]
fn test_daemon_request_parsing_handles_split_frame() {
    // The bytes of one request arrive in two pieces; the frame read up to
    // the newline carries the whole request.
    let request = br#"{"type":"Status"}"#.to_vec();
    let mut received = request[..5].to_vec();
    received.extend_from_slice(&request[5..]);
    received.push(b'\n');
    assert_eq!(frame_payload(&received).unwrap(), Some(request));
}

#[test]
fn frame_line_endings_are_removed() {
    assert_eq!(frame_payload(&b"abc\r\n".to_vec()).unwrap(), Some(b"abc".to_vec()));
    assert_eq!(frame_payload(&b"abc\n".to_vec()).unwrap(), Some(b"abc".to_vec()));
    assert_eq!(frame_payload(&b"abc".to_vec()).unwrap(), Some(b"abc".to_vec()));
    assert_eq!(frame_payload(&b"abc\r".to_vec()).unwrap(), Some(b"abc\r".to_vec()));
    assert_eq!(frame_payload(&b"\r\n".to_vec()).unwrap(), None);
    assert_eq!(frame_payload(&b"\n".to_vec()).unwrap(), None);
    assert_eq!(frame_payload(&Vec::new()).unwrap(), None);
}

#[test]
fn oversized_frame_is_refused() {
    let big = vec![b'a'; MAX_FRAME_SIZE + 1];
    match frame_payload(&big) {
        Err(DaemonError::ConnectionError(m)) => assert_eq!(
            m,
            "Request size 65537 exceeds maximum allowed size of 65536 bytes"
        ),
        other => panic!("unexpected {other:?}"),
    }
    let exact = vec![b'a'; MAX_FRAME_SIZE];
    assert_eq!(frame_payload(&exact).unwrap().map(|p| p.len()), Some(MAX_FRAME_SIZE));
}
