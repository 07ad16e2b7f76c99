use canopus::proxy_api::{CallLog, NullProxy, ProxyApi, ProxyOp};

#[test]
fn test_null_proxy_creation() {
    let proxy = NullProxy::new();
    assert_eq!(proxy.call_count(), 0);
    assert_eq!(proxy.get_calls().len(), 0);
    assert_eq!(proxy.get_attachments().len(), 0);
}

#[test]
fn test_attach_operation() {
    let mut proxy = NullProxy::new();
    let result = proxy.attach("example.com", 8080);
    assert!(result.is_ok());
    assert_eq!(proxy.call_count(), 1);
    let calls = proxy.get_calls();
    assert_eq!(calls.len(), 1);
    match &calls[0] {
        CallLog::Attach { host, port } => {
            assert_eq!(host, "example.com");
            assert_eq!(*port, 8080);
        }
        _ => panic!("Expected Attach call"),
    }
    assert!(proxy.is_attached("example.com"));
    assert_eq!(proxy.get_attachments(), vec!["example.com"]);
}

#[test]
fn test_detach_operation() {
    let mut proxy = NullProxy::new();
    proxy.attach("example.com", 8080).unwrap();
    assert!(proxy.is_attached("example.com"));
    let result = proxy.detach("example.com");
    assert!(result.is_ok());
    assert_eq!(proxy.call_count(), 2);
    let calls = proxy.get_calls();
    assert_eq!(calls.len(), 2);
    match &calls[1] {
        CallLog::Detach { host } => assert_eq!(host, "example.com"),
        _ => panic!("Expected Detach call"),
    }
    assert!(!proxy.is_attached("example.com"));
    assert_eq!(proxy.get_attachments().len(), 0);
}

#[test]
fn test_idempotent_attach() {
    let mut proxy = NullProxy::new();
    proxy.attach("example.com", 8080).unwrap();
    proxy.attach("example.com", 8080).unwrap();
    proxy.attach("example.com", 8080).unwrap();
    assert_eq!(proxy.call_count(), 3);
    assert!(proxy.is_attached("example.com"));
    assert_eq!(proxy.get_attachments(), vec!["example.com"]);
    let calls = proxy.get_calls();
    assert_eq!(calls.len(), 3);
    for call in calls {
        match call {
            CallLog::Attach { host, port } => {
                assert_eq!(host, "example.com");
                assert_eq!(port, 8080);
            }
            _ => panic!("Expected only Attach calls"),
        }
    }
}

#[test]
fn test_idempotent_detach() {
    let mut proxy = NullProxy::new();
    proxy.attach("example.com", 8080).unwrap();
    assert!(proxy.is_attached("example.com"));
    proxy.detach("example.com").unwrap();
    proxy.detach("example.com").unwrap();
    proxy.detach("example.com").unwrap();
    assert_eq!(proxy.call_count(), 4);
    assert!(!proxy.is_attached("example.com"));
    assert_eq!(proxy.get_attachments().len(), 0);
    let calls = proxy.get_calls();
    assert_eq!(calls.len(), 4);
    match &calls[0] {
        CallLog::Attach { host, port } => {
            assert_eq!(host, "example.com");
            assert_eq!(*port, 8080);
        }
        _ => panic!("Expected Attach call"),
    }
    for call in &calls[1..] {
        match call {
            CallLog::Detach { host } => assert_eq!(host, "example.com"),
            _ => panic!("Expected Detach call"),
        }
    }
}

#[test]
fn test_detach_without_attach() {
    let mut proxy = NullProxy::new();
    let result = proxy.detach("nonexistent.com");
    assert!(result.is_ok());
    assert_eq!(proxy.call_count(), 1);
    assert!(!proxy.is_attached("nonexistent.com"));
}

#[test]
fn test_multiple_hosts() {
    let mut proxy = NullProxy::new();
    proxy.attach("example.com", 8080).unwrap();
    proxy.attach("test.com", 9090).unwrap();
    proxy.attach("local.dev", 3000).unwrap();
    assert!(proxy.is_attached("example.com"));
    assert!(proxy.is_attached("test.com"));
    assert!(proxy.is_attached("local.dev"));
    assert_eq!(proxy.get_attachments().len(), 3);
    proxy.detach("test.com").unwrap();
    assert!(proxy.is_attached("example.com"));
    assert!(!proxy.is_attached("test.com"));
    assert!(proxy.is_attached("local.dev"));
    assert_eq!(proxy.get_attachments().len(), 2);
}

#[test]
fn test_reset_functionality() {
    let mut proxy = NullProxy::new();
    proxy.attach("example.com", 8080).unwrap();
    proxy.attach("test.com", 9090).unwrap();
    proxy.detach("example.com").unwrap();
    assert_eq!(proxy.call_count(), 3);
    assert_eq!(proxy.get_attachments().len(), 1);
    proxy.reset();
    assert_eq!(proxy.call_count(), 0);
    assert_eq!(proxy.get_calls().len(), 0);
    assert_eq!(proxy.get_attachments().len(), 0);
    assert!(!proxy.is_attached("test.com"));
}

#[test]
fn test_golden_sequence() {
    let mut proxy = NullProxy::new();
    proxy.attach("api.example.com", 8080).unwrap();
    proxy.attach("web.example.com", 3000).unwrap();
    proxy.detach("api.example.com").unwrap();
    proxy.attach("api.example.com", 8081).unwrap();
    proxy.detach("web.example.com").unwrap();
    proxy.detach("api.example.com").unwrap();
    let calls = proxy.get_calls();
    let expected = vec![
        CallLog::Attach { host: "api.example.com".to_string(), port: 8080 },
        CallLog::Attach { host: "web.example.com".to_string(), port: 3000 },
        CallLog::Detach { host: "api.example.com".to_string() },
        CallLog::Attach { host: "api.example.com".to_string(), port: 8081 },
        CallLog::Detach { host: "web.example.com".to_string() },
        CallLog::Detach { host: "api.example.com".to_string() },
    ];
    assert_eq!(calls, expected);
    assert_eq!(proxy.get_attachments().len(), 0);
}

#[test]
fn test_call_log_debug_format() {
    let attach_log = CallLog::Attach { host: "example.com".to_string(), port: 8080 };
    let detach_log = CallLog::Detach { host: "example.com".to_string() };
    let _attach_debug = format!("{:?}", attach_log);
    let _detach_debug = format!("{:?}", detach_log);
}

#[test]
fn proxy_op_values_compare_by_fields() {
    let a = ProxyOp::Attach { host: "app.dev".to_string(), port: 8080 };
    assert_eq!(a.clone(), ProxyOp::Attach { host: "app.dev".to_string(), port: 8080 });
    assert_ne!(a, ProxyOp::Detach { host: "app.dev".to_string() });
}

#[test]
fn attached_hosts_follow_the_recorded_calls() {
    let mut proxy = NullProxy::new();
    proxy.attach("a.dev", 3000).unwrap();
    proxy.attach("a.dev", 3000).unwrap();
    proxy.attach("b.dev", 3001).unwrap();
    proxy.detach("a.dev").unwrap();
    proxy.detach("a.dev").unwrap();
    assert_eq!(proxy.call_count(), 5);
    assert_eq!(proxy.get_attachments(), vec!["b.dev".to_string()]);
    assert!(!proxy.is_attached("a.dev"));
    assert!(proxy.is_attached("b.dev"));
    proxy.reset();
    assert_eq!(proxy.call_count(), 0);
    assert!(proxy.get_attachments().is_empty());
}

#[test]
fn a_host_is_attached_while_its_last_attach_stands() {
    let mut proxy = NullProxy::new();
    proxy.attach("a.dev", 3000).unwrap();
    proxy.detach("a.dev").unwrap();
    assert!(!proxy.is_attached("a.dev"));
    proxy.attach("a.dev", 3002).unwrap();
    proxy.detach("b.dev").unwrap();
    assert!(proxy.is_attached("a.dev"));
    let attachments = proxy.get_attachments();
    assert_eq!(attachments, vec!["a.dev".to_string()]);
    assert_eq!(proxy.call_count(), proxy.get_calls().len());
}
