use canopus::restart_policy::{
    FailureTracker, RestartDecision, RestartPolicy, RestartPolicyEngine, ServiceExit,
};

const NOW: u64 = 1_704_110_400;

fn exit_with(pid: u32, exit_code: Option<i32>, signal: Option<i32>) -> ServiceExit {
    ServiceExit { pid, exit_code, signal, timestamp: "2024-01-01T12:00:00Z".to_string() }
}

fn create_exit_success() -> ServiceExit {
    exit_with(1234, Some(0), None)
}

fn create_exit_failure() -> ServiceExit {
    exit_with(1234, Some(1), None)
}

fn create_exit_signal() -> ServiceExit {
    exit_with(1234, None, Some(9))
}

fn restarts(d: RestartDecision) -> bool {
    matches!(d, RestartDecision::Restart { .. })
}

#[test]
fn restart_policy_test_restart_policy_never() {
    let mut engine = RestartPolicyEngine::new(RestartPolicy::Never, 300);
    assert_eq!(engine.should_restart(&create_exit_success(), NOW), RestartDecision::Stop);
    assert_eq!(engine.should_restart(&create_exit_failure(), NOW), RestartDecision::Stop);
    assert_eq!(engine.should_restart(&create_exit_signal(), NOW), RestartDecision::Stop);
}

#[test]
fn test_restart_policy_on_failure() {
    let mut engine = RestartPolicyEngine::new(RestartPolicy::OnFailure, 300);
    assert_eq!(engine.should_restart(&create_exit_success(), NOW), RestartDecision::Stop);
    assert!(restarts(engine.should_restart(&create_exit_failure(), NOW)));
    assert!(restarts(engine.should_restart(&create_exit_signal(), NOW)));
}

#[test]
fn restart_policy_test_restart_policy_always() {
    let mut engine = RestartPolicyEngine::new(RestartPolicy::Always, 300);
    assert!(restarts(engine.should_restart(&create_exit_success(), NOW)));
    assert!(restarts(engine.should_restart(&create_exit_failure(), NOW)));
    assert!(restarts(engine.should_restart(&create_exit_signal(), NOW)));
}

#[test]
fn test_exponential_backoff() {
    // Each failure in the window raises the backoff exponent by one.
    let mut engine = RestartPolicyEngine::new(RestartPolicy::OnFailure, 300);
    for expected in 1..=4usize {
        assert_eq!(
            engine.should_restart(&create_exit_failure(), NOW),
            RestartDecision::Restart { failures_in_window: expected }
        );
    }
}

#[test]
fn test_failure_tracker_window() {
    let mut tracker = FailureTracker::new(10);
    let base_time = NOW;

    tracker.record_failure(base_time);
    assert_eq!(tracker.failure_count(base_time), 1);

    let later_time = base_time + 5;
    tracker.record_failure(later_time);
    assert_eq!(tracker.failure_count(later_time), 2);

    let much_later_time = base_time + 15;
    assert_eq!(tracker.failure_count(much_later_time), 1);

    let very_late_time = base_time + 20;
    assert_eq!(tracker.failure_count(very_late_time), 0);
}

#[test]
fn test_failure_tracker_reset() {
    let mut tracker = FailureTracker::new(300);
    tracker.record_failure(NOW);
    tracker.record_failure(NOW);
    assert_eq!(tracker.failure_count(NOW), 2);

    tracker.reset();
    assert_eq!(tracker.failure_count(NOW), 0);
    assert_eq!(tracker.window_secs(), 300);
}

#[test]
fn test_restart_policy_table_driven() {
    let success = || exit_with(1000, Some(0), None);
    let failure = || exit_with(1001, Some(1), None);
    let signal = |s: i32| exit_with(1002, None, Some(s));

    let mut never = RestartPolicyEngine::new(RestartPolicy::Never, 300);
    for exit in [success(), failure(), signal(9)] {
        assert_eq!(never.should_restart(&exit, NOW), RestartDecision::Stop);
    }

    let mut on_failure = RestartPolicyEngine::new(RestartPolicy::OnFailure, 300);
    assert_eq!(on_failure.should_restart(&success(), NOW), RestartDecision::Stop);
    assert_eq!(on_failure.should_restart(&success(), NOW), RestartDecision::Stop);

    let mut backoff = RestartPolicyEngine::new(RestartPolicy::OnFailure, 300);
    for n in 1..=5usize {
        assert_eq!(
            backoff.should_restart(&failure(), NOW),
            RestartDecision::Restart { failures_in_window: n }
        );
    }

    // Always: successes restart with an empty history (minimal delay),
    // failures count up and a success resets the count.
    let mut always = RestartPolicyEngine::new(RestartPolicy::Always, 300);
    let expected = [0usize, 1, 2, 0, 1];
    let exits = [success(), failure(), signal(15), success(), failure()];
    for (exit, n) in exits.iter().zip(expected) {
        assert_eq!(
            always.should_restart(exit, NOW),
            RestartDecision::Restart { failures_in_window: n }
        );
    }

    let mut signals = RestartPolicyEngine::new(RestartPolicy::OnFailure, 300);
    for (s, n) in [(9, 1usize), (15, 2), (2, 3)] {
        assert_eq!(
            signals.should_restart(&signal(s), NOW),
            RestartDecision::Restart { failures_in_window: n }
        );
    }
}

#[test]
fn test_failure_window_behavior() {
    let mut engine = RestartPolicyEngine::new(RestartPolicy::OnFailure, 10);
    let exit1 = exit_with(1001, Some(1), None);
    assert_eq!(
        engine.should_restart(&exit1, NOW),
        RestartDecision::Restart { failures_in_window: 1 }
    );
    assert_eq!(engine.current_failure_count(NOW), 1);

    let exit2 = exit_with(1002, Some(1), None);
    assert_eq!(
        engine.should_restart(&exit2, NOW + 5),
        RestartDecision::Restart { failures_in_window: 2 }
    );
    assert_eq!(engine.current_failure_count(NOW + 5), 2);

    // The first failure falls out of the window eleven seconds later.
    assert_eq!(engine.current_failure_count(NOW + 11), 1);
    assert_eq!(engine.current_failure_count(NOW + 16), 0);
}

#[test]
fn test_failure_counter_reset_on_success() {
    let mut engine = RestartPolicyEngine::new(RestartPolicy::Always, 300);
    let fail = || exit_with(1001, Some(1), None);

    assert!(restarts(engine.should_restart(&fail(), NOW)));
    assert_eq!(engine.current_failure_count(NOW), 1);

    assert_eq!(
        engine.should_restart(&fail(), NOW),
        RestartDecision::Restart { failures_in_window: 2 }
    );
    assert_eq!(engine.current_failure_count(NOW), 2);

    assert_eq!(
        engine.should_restart(&exit_with(1003, Some(0), None), NOW),
        RestartDecision::Restart { failures_in_window: 0 }
    );
    assert_eq!(engine.current_failure_count(NOW), 0);

    assert_eq!(
        engine.should_restart(&fail(), NOW),
        RestartDecision::Restart { failures_in_window: 1 }
    );
    assert_eq!(engine.current_failure_count(NOW), 1);
}

#[test]
fn never_policy_keeps_history_untouched() {
    let mut engine = RestartPolicyEngine::new(RestartPolicy::Never, 300);
    engine.should_restart(&create_exit_failure(), NOW);
    assert_eq!(engine.current_failure_count(NOW), 0);
}

#[test]
fn reset_failures_clears_history() {
    let mut engine = RestartPolicyEngine::new(RestartPolicy::OnFailure, 300);
    engine.should_restart(&create_exit_failure(), NOW);
    engine.should_restart(&create_exit_failure(), NOW);
    engine.reset_failures();
    assert_eq!(engine.current_failure_count(NOW), 0);
}

#[test]
fn exit_failure_classification() {
    assert!(!create_exit_success().is_failure());
    assert!(create_exit_failure().is_failure());
    assert!(create_exit_signal().is_failure());
    assert!(exit_with(1, Some(-1), None).is_failure());
}

#[test]
fn window_start_saturates_near_epoch() {
    let mut tracker = FailureTracker::new(300);
    tracker.record_failure(5);
    assert_eq!(tracker.failure_count(0), 1);
    assert_eq!(tracker.failure_count(305), 1);
    assert_eq!(tracker.failure_count(306), 0);
}
