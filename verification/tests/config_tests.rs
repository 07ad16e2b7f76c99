use canopus::config::{
    validate_probe, BackoffSettings, ServiceSpec, ServicesFile, SimpleServiceConfig,
    SimpleServicesFile,
};
use canopus::error::CoreError;
use canopus::health::{HealthCheck, HealthCheckType, ReadinessCheck};
use canopus::restart_policy::RestartPolicy;

fn backoff() -> BackoffSettings {
    BackoffSettings {
        base_delay_secs: 1,
        max_delay_secs: 60,
        failure_window_secs: 300,
        jitter_in_range: true,
        multiplier_positive: true,
    }
}

fn service(id: &str, name: &str, command: &str) -> ServiceSpec {
    ServiceSpec {
        id: id.to_string(),
        name: name.to_string(),
        command: command.to_string(),
        args: vec![],
        environment: vec![],
        working_directory: None,
        restart_policy: RestartPolicy::OnFailure,
        backoff_config: backoff(),
        health_check: None,
        readiness_check: None,
        graceful_timeout_secs: 10,
        startup_timeout_secs: 60,
    }
}

fn tcp_health(interval: u64, timeout: u64, fail: u32, succ: u32, port: u16) -> HealthCheck {
    HealthCheck {
        check_type: HealthCheckType::Tcp { port },
        interval_secs: interval,
        timeout_secs: timeout,
        failure_threshold: fail,
        success_threshold: succ,
    }
}

fn tcp_readiness(interval: u64, timeout: u64, succ: u32) -> ReadinessCheck {
    ReadinessCheck {
        check_type: HealthCheckType::Tcp { port: 8080 },
        initial_delay_secs: 0,
        interval_secs: interval,
        timeout_secs: timeout,
        success_threshold: succ,
    }
}

fn err_text(file: ServicesFile) -> String {
    match file.validate() {
        Err(e) => e.to_string(),
        Ok(()) => panic!("expected a validation error"),
    }
}

fn one(s: ServiceSpec) -> ServicesFile {
    ServicesFile { services: vec![s] }
}

#[test]
fn parses_and_validates_valid_config() {
    let mut svc1 = service("svc1", "Service One", "echo");
    svc1.args = vec!["hello".to_string()];
    svc1.health_check = Some(tcp_health(10, 5, 3, 1, 8080));
    let mut svc2 = service("svc2", "Service Two", "sh");
    svc2.args = vec!["-c".to_string(), "exit 0".to_string()];
    let cfg = ServicesFile { services: vec![svc1, svc2] };
    cfg.validate().expect("should validate");
    assert_eq!(cfg.services.len(), 2);
    assert_eq!(cfg.services[0].id, "svc1");
    assert_eq!(cfg.services[1].id, "svc2");
}

#[test]
fn errors_on_empty_services() {
    let err = err_text(ServicesFile { services: vec![] });
    assert!(err.contains("services: must contain at least one service"));
}

#[test]
fn errors_on_duplicate_ids() {
    let file = ServicesFile { services: vec![service("dup", "A", "echo"), service("dup", "B", "echo")] };
    assert!(err_text(file).contains("duplicate id"));
}

#[test]
fn errors_on_tcp_bad_port() {
    let mut s = service("s", "S", "echo");
    s.health_check = Some(tcp_health(10, 5, 3, 1, 0));
    assert!(err_text(one(s)).contains("type[Tcp].port"));
}

#[test]
fn errors_on_empty_id() {
    assert!(err_text(one(service("   ", "A", "echo"))).contains(".id: cannot be empty"));
}

#[test]
fn errors_on_empty_name() {
    assert!(err_text(one(service("s", "", "echo"))).contains(".name: cannot be empty"));
}

#[test]
fn errors_on_empty_command() {
    assert!(err_text(one(service("s", "S", "   "))).contains(".command: cannot be empty"));
}

#[test]
fn errors_on_empty_environment_key() {
    let mut s = service("s", "S", "echo");
    s.environment = vec![("".to_string(), "value".to_string())];
    assert!(err_text(one(s)).contains(".environment: keys cannot be empty"));
}

#[test]
fn errors_on_backoff_base_delay_zero() {
    let mut s = service("s", "S", "echo");
    s.backoff_config.base_delay_secs = 0;
    assert!(err_text(one(s)).contains("backoffConfig.baseDelaySecs: must be > 0"));
}

#[test]
fn errors_on_backoff_jitter_out_of_range() {
    let mut s = service("s", "S", "echo");
    s.backoff_config.jitter_in_range = false;
    assert!(err_text(one(s)).contains("backoffConfig.jitter: must be between 0.0 and 1.0"));
}

#[test]
fn errors_on_backoff_multiplier_zero() {
    let mut s = service("s", "S", "echo");
    s.backoff_config.multiplier_positive = false;
    assert!(err_text(one(s)).contains("backoffConfig.multiplier: must be > 0"));
}

#[test]
fn errors_on_graceful_timeout_zero() {
    let mut s = service("s", "S", "echo");
    s.graceful_timeout_secs = 0;
    assert!(err_text(one(s)).contains("gracefulTimeoutSecs: must be > 0"));
}

#[test]
fn errors_on_startup_timeout_zero() {
    let mut s = service("s", "S", "echo");
    s.startup_timeout_secs = 0;
    assert!(err_text(one(s)).contains("startupTimeoutSecs: must be > 0"));
}

#[test]
fn errors_on_health_check_interval_zero() {
    let mut s = service("s", "S", "echo");
    s.health_check = Some(tcp_health(0, 5, 3, 1, 8080));
    assert!(err_text(one(s)).contains("healthCheck.intervalSecs: must be > 0"));
}

#[test]
fn errors_on_health_check_timeout_zero() {
    let mut s = service("s", "S", "echo");
    s.health_check = Some(tcp_health(10, 0, 3, 1, 8080));
    assert!(err_text(one(s)).contains("healthCheck.timeoutSecs: must be > 0"));
}

#[test]
fn errors_on_health_check_failure_threshold_zero() {
    let mut s = service("s", "S", "echo");
    s.health_check = Some(tcp_health(10, 5, 0, 1, 8080));
    assert!(err_text(one(s)).contains("healthCheck.failureThreshold: must be > 0"));
}

#[test]
fn errors_on_exec_check_empty_command() {
    let mut s = service("s", "S", "echo");
    s.health_check = Some(HealthCheck {
        check_type: HealthCheckType::Exec { command: "   ".to_string(), args: vec![] },
        interval_secs: 10,
        timeout_secs: 5,
        failure_threshold: 3,
        success_threshold: 1,
    });
    assert!(err_text(one(s)).contains("type[Exec].command: cannot be empty"));
}

#[test]
fn accepts_valid_exec_health_check() {
    let mut s = service("s", "S", "echo");
    s.health_check = Some(HealthCheck {
        check_type: HealthCheckType::Exec {
            command: "curl -f http://localhost:8080/health".to_string(),
            args: vec![],
        },
        interval_secs: 10,
        timeout_secs: 5,
        failure_threshold: 3,
        success_threshold: 1,
    });
    let cfg = one(s);
    cfg.validate().expect("should accept exec health check");
    assert_eq!(cfg.services.len(), 1);
}

#[test]
fn errors_on_readiness_check_interval_zero() {
    let mut s = service("s", "S", "echo");
    s.readiness_check = Some(tcp_readiness(0, 5, 1));
    assert!(err_text(one(s)).contains("readinessCheck.intervalSecs: must be > 0"));
}

#[test]
fn parses_keyed_by_id_format() {
    let mut svc1 = service("svc1", "Service One", "echo");
    svc1.args = vec!["hello".to_string()];
    let cfg = ServicesFile { services: vec![svc1, service("svc2", "Service Two", "sh")] };
    cfg.validate().expect("keyed services validate");
    assert_eq!(cfg.services.len(), 2);
    let ids: std::collections::HashSet<_> = cfg.services.iter().map(|s| s.id.as_str()).collect();
    assert!(ids.contains("svc1"));
    assert!(ids.contains("svc2"));
}

#[test]
fn errors_on_health_check_success_threshold_zero() {
    let mut s = service("s", "S", "echo");
    s.health_check = Some(tcp_health(10, 5, 3, 0, 8080));
    assert!(err_text(one(s)).contains("healthCheck.successThreshold: must be > 0"));
}

#[test]
fn errors_on_readiness_check_timeout_zero() {
    let mut s = service("s", "S", "echo");
    s.readiness_check = Some(tcp_readiness(10, 0, 1));
    assert!(err_text(one(s)).contains("readinessCheck.timeoutSecs: must be > 0"));
}

#[test]
fn errors_on_readiness_check_success_threshold_zero() {
    let mut s = service("s", "S", "echo");
    s.readiness_check = Some(tcp_readiness(10, 5, 0));
    assert!(err_text(one(s)).contains("readinessCheck.successThreshold: must be > 0"));
}

#[test]
fn field_paths_name_the_failing_index() {
    let file = ServicesFile {
        services: vec![service("a", "A", "x"), service("b", "B", "x"), service("a", "C", "x")],
    };
    assert_eq!(err_text(file), "Validation error: services[2].id: duplicate id 'a'");

    let mut s = service("ok", "Ok", "run");
    s.readiness_check = Some(tcp_readiness(1, 1, 1));
    s.health_check = Some(tcp_health(1, 1, 1, 1, 0));
    let file = ServicesFile { services: vec![service("z", "Z", "x"), s] };
    assert_eq!(
        err_text(file),
        "Validation error: services[1].healthCheck.type[Tcp].port: must be 1..=65535"
    );
}

#[test]
fn probe_validation_in_order() {
    let tcp = HealthCheckType::Tcp { port: 0 };
    match validate_probe(3, "readinessCheck", &tcp, 0, 0, None) {
        Err(CoreError::ValidationError(m)) => {
            assert_eq!(m, "services[3].readinessCheck.intervalSecs: must be > 0")
        }
        other => panic!("unexpected {other:?}"),
    }
    match validate_probe(0, "healthCheck", &tcp, 1, 1, None) {
        Err(CoreError::ValidationError(m)) => {
            assert_eq!(m, "services[0].healthCheck.type[Tcp].port: must be 1..=65535")
        }
        other => panic!("unexpected {other:?}"),
    }
    assert!(validate_probe(0, "healthCheck", &HealthCheckType::Tcp { port: 1 }, 1, 1, Some((1, 1))).is_ok());
}

fn simple(entries: Vec<(&str, Option<&str>, Option<u16>)>) -> SimpleServicesFile {
    let mut file = SimpleServicesFile::new();
    for (id, hostname, port) in entries {
        file.insert(id.to_string(), SimpleServiceConfig { hostname: hostname.map(|h| h.to_string()), port });
    }
    file
}

#[test]
fn simple_services_errors_on_empty() {
    let err = simple(vec![]).validate().unwrap_err();
    assert!(err.to_string().contains("at least one service"));
}

#[test]
fn simple_services_errors_on_empty_hostname() {
    let err = simple(vec![("web", Some("   "), None)]).validate().unwrap_err();
    assert!(err.to_string().contains("hostname cannot be empty"));
}

#[test]
fn simple_services_errors_on_port_zero() {
    let err = simple(vec![("web", None, Some(0))]).validate().unwrap_err();
    assert!(err.to_string().contains("port must be 1..=65535"));
}

#[test]
fn simple_services_accepts_valid_config() {
    let cfg = simple(vec![("web", Some("app.dev"), Some(3000)), ("api", None, Some(4000))]);
    cfg.validate().expect("should validate");
    assert_eq!(cfg.services().len(), 2);
    assert_eq!(cfg.services()[0].1.hostname.as_deref(), Some("app.dev"));
    assert_eq!(cfg.services()[0].1.port, Some(3000));
    assert_eq!(cfg.services()[1].1.hostname, None);
}

#[test]
fn simple_services_accepts_minimal_config() {
    let cfg = simple(vec![("svc", None, None)]);
    cfg.validate().expect("should validate minimal");
    assert_eq!(cfg.services().len(), 1);
    assert!(cfg.services()[0].1.hostname.is_none());
    assert!(cfg.services()[0].1.port.is_none());
}

#[test]
fn simple_services_exact_messages() {
    match simple(vec![("web", None, Some(0))]).validate() {
        Err(CoreError::ValidationError(m)) => assert_eq!(m, "service 'web': port must be 1..=65535"),
        other => panic!("unexpected {other:?}"),
    }
    match simple(vec![("ok", None, None), (" ", None, None)]).validate() {
        Err(CoreError::ValidationError(m)) => assert_eq!(m, "service id (table name) cannot be empty"),
        other => panic!("unexpected {other:?}"),
    }
}

#[test]
fn simple_services_keep_one_entry_per_id() {
    let mut file = SimpleServicesFile::new();
    file.insert("web".to_string(), SimpleServiceConfig { hostname: None, port: Some(3000) });
    file.insert("api".to_string(), SimpleServiceConfig { hostname: None, port: Some(4000) });
    file.insert("web".to_string(), SimpleServiceConfig { hostname: Some("app.dev".to_string()), port: Some(3001) });
    let entries = file.services();
    assert_eq!(entries.len(), 2);
    assert_eq!(entries[0].0, "web");
    assert_eq!(entries[0].1, SimpleServiceConfig { hostname: Some("app.dev".to_string()), port: Some(3001) });
    assert_eq!(entries[1].0, "api");
}
