use canopus::config::{BackoffSettings, ServiceSpec};
use canopus::error::CoreError;
use canopus::health::{HealthCheck, HealthCheckType};
use canopus::restart_policy::{RestartAction, RestartPolicy};
use canopus::supervisor::{
    get_changed_fields, missing_check_error, needs_restart_for_spec_change, ExitPlan, HealthVerdict, ReadinessStep,
    ServiceState, StateChange, StopDecision, SupervisorCore,
};

fn started(readiness_delay_ms: Option<u64>, has_health: bool) -> SupervisorCore {
    let mut core = SupervisorCore::new();
    assert_eq!(
        core.begin_start(),
        Some(StateChange { from: ServiceState::Idle, to: ServiceState::Spawning })
    );
    core.process_spawned(readiness_delay_ms, has_health, 30_000, 1_000);
    core
}

#[test]
fn no_health_checks_immediate_ready() {
    let mut core = SupervisorCore::new();
    core.begin_start();
    let change = core.process_spawned(None, false, 30_000, 1_000);
    assert_eq!(change, Some(StateChange { from: ServiceState::Spawning, to: ServiceState::Ready }));
    assert_eq!(core.current_state(), ServiceState::Ready);
    assert_eq!(core.startup_timeout_timer, None);
}

#[test]
fn readiness_success_makes_ready() {
    let mut core = started(Some(100), false);
    assert_eq!(core.current_state(), ServiceState::Starting);
    assert_eq!(core.startup_timeout_timer, Some(31_000));
    assert_eq!(core.readiness_check_timer, Some(1_100));

    assert_eq!(core.readiness_tick(Some(100), 1_050), ReadinessStep::Wait);
    assert_eq!(core.readiness_tick(Some(100), 1_100), ReadinessStep::RunCheck);
    assert_eq!(core.readiness_check_timer, None);
    let change = core.readiness_result(true, 1, 500, 1_100);
    assert_eq!(change, Some(StateChange { from: ServiceState::Starting, to: ServiceState::Ready }));
    assert_eq!(core.consecutive_readiness_successes(), 0);
}

#[test]
fn readiness_failure_then_success() {
    let mut core = started(Some(0), false);
    assert_eq!(core.readiness_tick(Some(0), 1_000), ReadinessStep::RunCheck);
    assert_eq!(core.readiness_result(false, 2, 500, 1_000), None);
    assert_eq!(core.readiness_check_timer, Some(1_500));
    assert_eq!(core.readiness_tick(Some(0), 1_500), ReadinessStep::RunCheck);
    assert_eq!(core.readiness_result(true, 2, 500, 1_500), None);
    assert_eq!(core.consecutive_readiness_successes(), 1);
    assert_eq!(core.readiness_tick(Some(0), 2_000), ReadinessStep::RunCheck);
    assert!(core.readiness_result(true, 2, 500, 2_000).is_some());
    assert_eq!(core.current_state(), ServiceState::Ready);
}

#[test]
fn health_only_service_becomes_ready_on_first_tick() {
    let mut core = started(None, true);
    assert_eq!(core.current_state(), ServiceState::Starting);
    assert_eq!(
        core.readiness_tick(None, 1_000),
        ReadinessStep::BecomeReady(Some(StateChange {
            from: ServiceState::Starting,
            to: ServiceState::Ready
        }))
    );
}

#[test]
fn health_failure_triggers_restart() {
    let mut core = started(None, false);
    assert_eq!(core.current_state(), ServiceState::Ready);
    assert!(!core.health_tick(Some(1_000), 1_000));
    assert_eq!(core.health_check_timer, Some(2_000));
    assert!(core.health_tick(Some(1_000), 2_000));
    assert_eq!(core.health_result(false, 2, 1, 1_000, 2_000), HealthVerdict::Continue);
    assert_eq!(core.consecutive_health_failures(), 1);
    assert_eq!(
        core.health_result(false, 2, 1, 1_000, 3_000),
        HealthVerdict::Unhealthy { consecutive_failures: 2 }
    );
    assert_eq!(core.consecutive_health_failures(), 0);
}

#[test]
fn health_success_resets_failures() {
    let mut core = started(None, false);
    core.health_result(false, 3, 1, 1_000, 1_000);
    assert_eq!(core.consecutive_health_failures(), 1);
    assert_eq!(core.health_result(true, 3, 1, 1_000, 2_000), HealthVerdict::Continue);
    assert_eq!(core.consecutive_health_failures(), 0);
    assert_eq!(core.health_check_timer, Some(3_000));
}

#[test]
fn startup_timeout_fires_only_while_starting() {
    let mut core = started(Some(100), false);
    assert!(!core.startup_deadline_passed(30_999));
    assert!(core.startup_deadline_passed(31_000));
    assert_eq!(core.startup_timeout_timer, None);
    assert!(!core.startup_deadline_passed(40_000));
}

#[test]
fn stop_and_restart_flow() {
    let mut core = started(None, false);
    assert_eq!(
        core.request_stop(),
        StopDecision::StopProcess(StateChange { from: ServiceState::Ready, to: ServiceState::Stopping })
    );
    assert_eq!(core.request_stop(), StopDecision::AlreadyStopping);
    let (change, plan) = core.process_exited(RestartAction::Stop, 5_000);
    assert_eq!(change, Some(StateChange { from: ServiceState::Stopping, to: ServiceState::Idle }));
    assert_eq!(plan, ExitPlan::StayIdle);
    assert_eq!(core.request_stop(), StopDecision::AlreadyIdle);

    let (_, plan) = core.process_exited(RestartAction::Restart { delay_ms: 0 }, 6_000);
    assert_eq!(plan, ExitPlan::StartNow);
    let (_, plan) = core.process_exited(RestartAction::Restart { delay_ms: 250 }, 6_000);
    assert_eq!(plan, ExitPlan::StartAt(6_250));
    assert!(!core.restart_timer_fired(6_249));
    assert!(core.restart_timer_fired(6_250));
    assert_eq!(core.restart_timer, None);
}

#[test]
fn manual_stop_cancels_restart() {
    let mut core = SupervisorCore::new();
    core.process_exited(RestartAction::Restart { delay_ms: 1_000 }, 0);
    assert_eq!(core.restart_timer, Some(1_000));
    assert_eq!(core.request_stop(), StopDecision::AlreadyIdle);
    assert_eq!(core.restart_timer, None);
    assert!(!core.restart_timer_fired(5_000));
}

#[test]
fn pending_timers_measure_from_now() {
    let core = started(Some(100), false);
    assert_eq!(core.pending_timers(1_050), (Some(50), None, Some(29_950)));
    assert_eq!(core.pending_timers(50_000), (Some(0), None, Some(0)));
}

#[test]
fn transition_to_same_state_is_silent() {
    let mut core = SupervisorCore::new();
    assert_eq!(core.transition_to(ServiceState::Idle), None);
    assert_eq!(
        core.transition_to(ServiceState::Starting),
        Some(StateChange { from: ServiceState::Idle, to: ServiceState::Starting })
    );
    assert_eq!(core.begin_start(), None);
}

fn spec() -> ServiceSpec {
    ServiceSpec {
        id: "web".to_string(),
        name: "Web".to_string(),
        command: "npm".to_string(),
        args: vec!["start".to_string()],
        environment: vec![("PORT".to_string(), "3000".to_string())],
        working_directory: None,
        restart_policy: RestartPolicy::Always,
        backoff_config: BackoffSettings {
            base_delay_secs: 1,
            max_delay_secs: 60,
            failure_window_secs: 300,
            jitter_in_range: true,
            multiplier_positive: true,
        },
        health_check: None,
        readiness_check: None,
        graceful_timeout_secs: 10,
        startup_timeout_secs: 60,
    }
}

#[test]
fn changed_fields_in_fixed_order() {
    let a = spec();
    assert!(get_changed_fields(&a, &a.clone()).is_empty());

    let mut b = spec();
    b.startup_timeout_secs = 5;
    b.command = "node".to_string();
    b.health_check = Some(HealthCheck {
        check_type: HealthCheckType::Tcp { port: 3000 },
        interval_secs: 5,
        timeout_secs: 1,
        failure_threshold: 3,
        success_threshold: 1,
    });
    b.environment.push(("DEBUG".to_string(), "1".to_string()));
    assert_eq!(
        get_changed_fields(&a, &b),
        vec!["command", "environment", "healthCheck", "startupTimeoutSecs"]
    );
    assert!(needs_restart_for_spec_change());
}

#[test]
fn spec_update_restarts_only_running_services() {
    let idle = SupervisorCore::new();
    assert!(!idle.restart_on_spec_update());
    let running = started(None, false);
    assert!(running.restart_on_spec_update());
}

#[test]
fn on_demand_checks_without_configuration() {
    match missing_check_error(false) {
        CoreError::ServiceError(m) => assert_eq!(m, "No health check configured"),
        other => panic!("unexpected {other:?}"),
    }
    match missing_check_error(true) {
        CoreError::ServiceError(m) => assert_eq!(m, "No readiness check configured"),
        other => panic!("unexpected {other:?}"),
    }
}
