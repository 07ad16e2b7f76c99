//! Decisions of the per-service supervisor: the lifecycle state machine,
//! readiness and liveness bookkeeping, timers, and what changed between
//! two specifications.
//!
//! The supervisor's task performs the actions (spawning, signalling,
//! probing, emitting events); each decision here takes the current state
//! and an event and yields the next state and the action to perform.
//! Times are milliseconds on the task's monotonic clock.

use vstd::prelude::*;
use crate::config::ServiceSpec;
use crate::health::{HealthCheck, HealthCheckType, ReadinessCheck};
use crate::restart_policy::RestartAction;
use crate::error::CoreError;
use crate::text::{owned, string_views};

verus! {

/// Lifecycle state of a supervised service.
#[derive(Debug, Clone, Copy, PartialEq, Eq, Structural)]
pub enum ServiceState {
    /// Not running.
    Idle,
    /// The process is being started.
    Spawning,
    /// Running, waiting for readiness.
    Starting,
    /// Running and ready.
    Ready,
    /// Being stopped.
    Stopping,
}

/// A change of lifecycle state, to be announced.
#[derive(Debug, Clone, Copy, PartialEq, Eq, Structural)]
pub struct StateChange {
    /// State before the change.
    pub from: ServiceState,
    /// State after the change.
    pub to: ServiceState,
}

/// What to do after a stop was requested.
#[derive(Debug, Clone, Copy, PartialEq, Eq, Structural)]
pub enum StopDecision {
    /// The service is already stopped.
    AlreadyIdle,
    /// The service is already stopping.
    AlreadyStopping,
    /// Announce the change and stop the process.
    StopProcess(StateChange),
}

/// What to do after the process exited.
#[derive(Debug, Clone, Copy, PartialEq, Eq, Structural)]
pub enum ExitPlan {
    /// Stay stopped.
    StayIdle,
    /// Start again right away.
    StartNow,
    /// Start again when the restart timer fires at the given time.
    StartAt(u64),
}

/// What the readiness timer asks for.
#[derive(Debug, Clone, Copy, PartialEq, Eq, Structural)]
pub enum ReadinessStep {
    /// Nothing to do now.
    Wait,
    /// Run the readiness check.
    RunCheck,
    /// No readiness check is configured: the service is ready.
    BecomeReady(Option<StateChange>),
}

/// Verdict of one liveness check.
#[derive(Debug, Clone, Copy, PartialEq, Eq, Structural)]
pub enum HealthVerdict {
    /// Keep checking at the next interval.
    Continue,
    /// Too many consecutive failures: restart the service.
    Unhealthy {
        /// Consecutive failures that led to the verdict.
        consecutive_failures: u32,
    },
}

/// The transition to `to` from `from`, if it changes anything.
pub open spec fn change_between(from: ServiceState, to: ServiceState) -> Option<StateChange> {
    if from == to { None } else { Some(StateChange { from, to }) }
}

/// Lifecycle state, counters and timers of one supervised service.
#[derive(Debug, Clone, Copy, PartialEq, Eq, Structural)]
pub struct SupervisorCore {
    /// Current lifecycle state.
    pub state: ServiceState,
    /// Time at which a scheduled restart fires.
    pub restart_timer: Option<u64>,
    /// Time of the next readiness check.
    pub readiness_check_timer: Option<u64>,
    /// Time of the next liveness check.
    pub health_check_timer: Option<u64>,
    /// Time at which the start times out.
    pub startup_timeout_timer: Option<u64>,
    /// Consecutive successful readiness checks.
    pub readiness_success_count: u32,
    /// Consecutive failed liveness checks.
    pub health_failure_count: u32,
    /// Consecutive successful liveness checks.
    pub health_success_count: u32,
}

impl SupervisorCore {
    /// Counters stay below their maximum, so one more check never overflows.
    pub open spec fn wf(&self) -> bool {
        &&& self.readiness_success_count < u32::MAX
        &&& self.health_failure_count < u32::MAX
        &&& self.health_success_count < u32::MAX
    }

    /// A supervisor for a service that is not running.
    pub fn new() -> (c: Self)
        ensures
            c.wf(),
            c.state == ServiceState::Idle,
            c.restart_timer is None,
            c.readiness_check_timer is None,
            c.health_check_timer is None,
            c.startup_timeout_timer is None,
            c.readiness_success_count == 0,
            c.health_failure_count == 0,
            c.health_success_count == 0,
    {
        SupervisorCore {
            state: ServiceState::Idle,
            restart_timer: None,
            readiness_check_timer: None,
            health_check_timer: None,
            startup_timeout_timer: None,
            readiness_success_count: 0,
            health_failure_count: 0,
            health_success_count: 0,
        }
    }

    /// Current lifecycle state.
    pub fn current_state(&self) -> (s: ServiceState)
        ensures
            s == self.state,
    {
        self.state
    }

    /// Move to `new_state`; the change is returned when the state differs,
    /// and nothing happens otherwise.
    pub fn transition_to(&mut self, new_state: ServiceState) -> (c: Option<StateChange>)
        ensures
            c == change_between(old(self).state, new_state),
            *final(self) == (SupervisorCore { state: new_state, ..*old(self) }),
    {
        if self.state == new_state {
            return None;
        }
        let from = self.state;
        self.state = new_state;
        Some(StateChange { from, to: new_state })
    }

    /// A start was requested: from `Idle` the service moves to `Spawning`
    /// and the change is returned (the process is then spawned); in any
    /// other state nothing changes.
    pub fn begin_start(&mut self) -> (c: Option<StateChange>)
        ensures
            old(self).state == ServiceState::Idle ==> c == Some(StateChange { from: ServiceState::Idle, to: ServiceState::Spawning })
                && *final(self) == (SupervisorCore { state: ServiceState::Spawning, ..*old(self) }),
            old(self).state != ServiceState::Idle ==> c is None && *final(self) == *old(self),
    {
        if self.state == ServiceState::Idle {
            self.transition_to(ServiceState::Spawning)
        } else {
            None
        }
    }

    /// The process was spawned at `now`. With a readiness or liveness check
    /// configured the service waits in `Starting`, with the startup deadline
    /// set when the timeout is positive and the first readiness check
    /// scheduled after its initial delay; without checks it is `Ready`.
    pub fn process_spawned(
        &mut self,
        readiness_initial_delay_ms: Option<u64>,
        has_health_check: bool,
        startup_timeout_ms: u64,
        now: u64,
    ) -> (c: Option<StateChange>)
        requires
            now + startup_timeout_ms <= u64::MAX,
            readiness_initial_delay_ms matches Some(d) ==> now + d <= u64::MAX,
        ensures
            (readiness_initial_delay_ms is Some || has_health_check) ==> {
                &&& c == change_between(old(self).state, ServiceState::Starting)
                &&& final(self).state == ServiceState::Starting
                &&& final(self).startup_timeout_timer == (if startup_timeout_ms > 0 {
                    Some((now + startup_timeout_ms) as u64)
                } else {
                    old(self).startup_timeout_timer
                })
                &&& final(self).readiness_check_timer == (match readiness_initial_delay_ms {
                    Some(d) => Some((now + d) as u64),
                    None => old(self).readiness_check_timer,
                })
            },
            !(readiness_initial_delay_ms is Some || has_health_check) ==> {
                &&& c == change_between(old(self).state, ServiceState::Ready)
                &&& *final(self) == (SupervisorCore { state: ServiceState::Ready, ..*old(self) })
            },
            final(self).restart_timer == old(self).restart_timer,
            final(self).health_check_timer == old(self).health_check_timer,
            final(self).readiness_success_count == old(self).readiness_success_count,
            final(self).health_failure_count == old(self).health_failure_count,
            final(self).health_success_count == old(self).health_success_count,
    {
        if readiness_initial_delay_ms.is_some() || has_health_check {
            let c = self.transition_to(ServiceState::Starting);
            if startup_timeout_ms > 0 {
                self.startup_timeout_timer = Some(now + startup_timeout_ms);
            }
            if let Some(d) = readiness_initial_delay_ms {
                self.readiness_check_timer = Some(now + d);
            }
            c
        } else {
            self.transition_to(ServiceState::Ready)
        }
    }

    /// A stop was requested: any scheduled restart is cancelled; a service
    /// that is idle or already stopping is left alone, otherwise it moves to
    /// `Stopping` and its process is to be stopped.
    pub fn request_stop(&mut self) -> (d: StopDecision)
        ensures
            final(self).restart_timer is None,
            old(self).state == ServiceState::Idle ==> d == StopDecision::AlreadyIdle
                && *final(self) == (SupervisorCore { restart_timer: None, ..*old(self) }),
            old(self).state == ServiceState::Stopping ==> d == StopDecision::AlreadyStopping
                && *final(self) == (SupervisorCore { restart_timer: None, ..*old(self) }),
            old(self).state != ServiceState::Idle && old(self).state != ServiceState::Stopping
                ==> d == StopDecision::StopProcess(StateChange { from: old(self).state, to: ServiceState::Stopping })
                && *final(self) == (SupervisorCore { restart_timer: None, state: ServiceState::Stopping, ..*old(self) }),
    {
        self.restart_timer = None;
        match self.state {
            ServiceState::Idle => StopDecision::AlreadyIdle,
            ServiceState::Stopping => StopDecision::AlreadyStopping,
            _ => {
                let from = self.state;
                self.state = ServiceState::Stopping;
                StopDecision::StopProcess(StateChange { from, to: ServiceState::Stopping })
            },
        }
    }

    /// The process exited at `now` and the restart policy chose `action`.
    /// The service becomes `Idle`; a restart without delay starts it again
    /// at once, a delayed one schedules the restart timer.
    pub fn process_exited(&mut self, action: RestartAction, now: u64) -> (r: (Option<StateChange>, ExitPlan))
        requires
            action matches RestartAction::Restart { delay_ms } ==> now + delay_ms <= u64::MAX,
        ensures
            r.0 == change_between(old(self).state, ServiceState::Idle),
            final(self).state == ServiceState::Idle,
            action == RestartAction::Stop ==> r.1 == ExitPlan::StayIdle
                && *final(self) == (SupervisorCore { state: ServiceState::Idle, ..*old(self) }),
            action == (RestartAction::Restart { delay_ms: 0 }) ==> r.1 == ExitPlan::StartNow
                && *final(self) == (SupervisorCore { state: ServiceState::Idle, ..*old(self) }),
            action matches RestartAction::Restart { delay_ms } ==> (delay_ms > 0 ==> r.1 == ExitPlan::StartAt(
                (now + delay_ms) as u64,
            ) && *final(self) == (SupervisorCore {
                state: ServiceState::Idle,
                restart_timer: Some((now + delay_ms) as u64),
                ..*old(self)
            })),
    {
        let change = self.transition_to(ServiceState::Idle);
        match action {
            RestartAction::Stop => (change, ExitPlan::StayIdle),
            RestartAction::Restart { delay_ms } => {
                if delay_ms == 0 {
                    (change, ExitPlan::StartNow)
                } else {
                    let at = now + delay_ms;
                    self.restart_timer = Some(at);
                    (change, ExitPlan::StartAt(at))
                }
            },
        }
    }

    /// The restart timer, if due at `now`, is cleared; the restart goes ahead
    /// only when the service is still idle.
    pub fn restart_timer_fired(&mut self, now: u64) -> (start: bool)
        ensures
            (old(self).restart_timer matches Some(t) && now >= t) ==> {
                &&& start == (old(self).state == ServiceState::Idle)
                &&& *final(self) == (SupervisorCore { restart_timer: None, ..*old(self) })
            },
            !(old(self).restart_timer matches Some(t) && now >= t) ==> !start && *final(self) == *old(self),
    {
        match self.restart_timer {
            Some(t) => {
                if now >= t {
                    self.restart_timer = None;
                    self.state == ServiceState::Idle
                } else {
                    false
                }
            },
            None => false,
        }
    }

    /// The startup deadline, if passed at `now`, is cleared; the start has
    /// timed out (and the service is to be restarted) only when it is still
    /// `Starting`.
    pub fn startup_deadline_passed(&mut self, now: u64) -> (timed_out: bool)
        ensures
            (old(self).startup_timeout_timer matches Some(t) && now >= t) ==> {
                &&& timed_out == (old(self).state == ServiceState::Starting)
                &&& *final(self) == (SupervisorCore { startup_timeout_timer: None, ..*old(self) })
            },
            !(old(self).startup_timeout_timer matches Some(t) && now >= t) ==> !timed_out && *final(self) == *old(self),
    {
        match self.startup_timeout_timer {
            Some(t) => {
                if now >= t {
                    self.startup_timeout_timer = None;
                    self.state == ServiceState::Starting
                } else {
                    false
                }
            },
            None => false,
        }
    }

    /// While `Starting`: run a due readiness check, schedule the first one
    /// after its initial delay, or, with no readiness check configured,
    /// become `Ready`. In other states nothing happens.
    pub fn readiness_tick(&mut self, readiness_initial_delay_ms: Option<u64>, now: u64) -> (s: ReadinessStep)
        requires
            readiness_initial_delay_ms matches Some(d) ==> now + d <= u64::MAX,
        ensures
            old(self).state != ServiceState::Starting ==> s == ReadinessStep::Wait && *final(self) == *old(self),
            old(self).state == ServiceState::Starting ==> match old(self).readiness_check_timer {
                Some(t) => if now >= t {
                    s == ReadinessStep::RunCheck && *final(self) == (SupervisorCore {
                        readiness_check_timer: None,
                        ..*old(self)
                    })
                } else {
                    s == ReadinessStep::Wait && *final(self) == *old(self)
                },
                None => match readiness_initial_delay_ms {
                    Some(d) => s == ReadinessStep::Wait && *final(self) == (SupervisorCore {
                        readiness_check_timer: Some((now + d) as u64),
                        ..*old(self)
                    }),
                    None => s == ReadinessStep::BecomeReady(
                        Some(StateChange { from: ServiceState::Starting, to: ServiceState::Ready }),
                    ) && *final(self) == (SupervisorCore { state: ServiceState::Ready, ..*old(self) }),
                },
            },
    {
        if self.state != ServiceState::Starting {
            return ReadinessStep::Wait;
        }
        match self.readiness_check_timer {
            Some(t) => {
                if now >= t {
                    self.readiness_check_timer = None;
                    ReadinessStep::RunCheck
                } else {
                    ReadinessStep::Wait
                }
            },
            None => match readiness_initial_delay_ms {
                Some(d) => {
                    self.readiness_check_timer = Some(now + d);
                    ReadinessStep::Wait
                },
                None => ReadinessStep::BecomeReady(self.transition_to(ServiceState::Ready)),
            },
        }
    }

    /// Record the result of a readiness check made at `now`. The
    /// `success_threshold`-th consecutive success resets the count and makes
    /// the service `Ready`; otherwise the next check is scheduled after
    /// `interval_ms`, a failure resetting the count.
    pub fn readiness_result(&mut self, success: bool, success_threshold: u32, interval_ms: u64, now: u64) -> (c: Option<StateChange>)
        requires
            old(self).wf(),
            now + interval_ms <= u64::MAX,
        ensures
            final(self).wf(),
            final(self).readiness_success_count == 0 || final(self).readiness_success_count < success_threshold,
            success && old(self).readiness_success_count + 1 >= success_threshold ==> {
                &&& c == change_between(old(self).state, ServiceState::Ready)
                &&& *final(self) == (SupervisorCore {
                    state: ServiceState::Ready,
                    readiness_success_count: 0,
                    ..*old(self)
                })
            },
            success && old(self).readiness_success_count + 1 < success_threshold ==> c is None
                && *final(self) == (SupervisorCore {
                readiness_success_count: (old(self).readiness_success_count + 1) as u32,
                readiness_check_timer: Some((now + interval_ms) as u64),
                ..*old(self)
            }),
            !success ==> c is None && *final(self) == (SupervisorCore {
                readiness_success_count: 0,
                readiness_check_timer: Some((now + interval_ms) as u64),
                ..*old(self)
            }),
    {
        if success {
            self.readiness_success_count = self.readiness_success_count + 1;
            if self.readiness_success_count >= success_threshold {
                self.readiness_success_count = 0;
                self.transition_to(ServiceState::Ready)
            } else {
                self.readiness_check_timer = Some(now + interval_ms);
                None
            }
        } else {
            self.readiness_success_count = 0;
            self.readiness_check_timer = Some(now + interval_ms);
            None
        }
    }

    /// While `Ready`: run a due liveness check, or schedule the first one an
    /// interval from `now` when a check is configured. Returns whether a
    /// check is to be run now.
    pub fn health_tick(&mut self, health_interval_ms: Option<u64>, now: u64) -> (run: bool)
        requires
            health_interval_ms matches Some(d) ==> now + d <= u64::MAX,
        ensures
            old(self).state != ServiceState::Ready ==> !run && *final(self) == *old(self),
            old(self).state == ServiceState::Ready ==> match old(self).health_check_timer {
                Some(t) => if now >= t {
                    run && *final(self) == (SupervisorCore { health_check_timer: None, ..*old(self) })
                } else {
                    !run && *final(self) == *old(self)
                },
                None => !run && match health_interval_ms {
                    Some(d) => *final(self) == (SupervisorCore {
                        health_check_timer: Some((now + d) as u64),
                        ..*old(self)
                    }),
                    None => *final(self) == *old(self),
                },
            },
    {
        if self.state != ServiceState::Ready {
            return false;
        }
        match self.health_check_timer {
            Some(t) => {
                if now >= t {
                    self.health_check_timer = None;
                    true
                } else {
                    false
                }
            },
            None => {
                if let Some(d) = health_interval_ms {
                    self.health_check_timer = Some(now + d);
                }
                false
            },
        }
    }

    /// Record the result of a liveness check made at `now`. A success clears
    /// the failure count and counts successes up to the threshold; a failure
    /// clears the success count, and the `failure_threshold`-th consecutive
    /// failure clears the failure count and asks for a restart, with no next
    /// check scheduled. Otherwise the next check is scheduled after `interval_ms`.
    pub fn health_result(
        &mut self,
        success: bool,
        failure_threshold: u32,
        success_threshold: u32,
        interval_ms: u64,
        now: u64,
    ) -> (v: HealthVerdict)
        requires
            old(self).wf(),
            now + interval_ms <= u64::MAX,
        ensures
            final(self).wf(),
            final(self).state == old(self).state,
            final(self).health_failure_count == 0 || final(self).health_failure_count < failure_threshold,
            v matches HealthVerdict::Unhealthy { consecutive_failures } ==> !success
                && consecutive_failures >= failure_threshold,
            success ==> v == HealthVerdict::Continue && *final(self) == (SupervisorCore {
                health_failure_count: 0,
                health_success_count: if old(self).health_success_count + 1 >= success_threshold {
                    0
                } else {
                    (old(self).health_success_count + 1) as u32
                },
                health_check_timer: Some((now + interval_ms) as u64),
                ..*old(self)
            }),
            !success && old(self).health_failure_count + 1 >= failure_threshold ==> v == (HealthVerdict::Unhealthy {
                consecutive_failures: (old(self).health_failure_count + 1) as u32,
            }) && *final(self) == (SupervisorCore {
                health_failure_count: 0,
                health_success_count: 0,
                ..*old(self)
            }),
            !success && old(self).health_failure_count + 1 < failure_threshold ==> v == HealthVerdict::Continue
                && *final(self) == (SupervisorCore {
                health_failure_count: (old(self).health_failure_count + 1) as u32,
                health_success_count: 0,
                health_check_timer: Some((now + interval_ms) as u64),
                ..*old(self)
            }),
    {
        if success {
            if self.health_failure_count > 0 {
                self.health_failure_count = 0;
            }
            self.health_success_count = self.health_success_count + 1;
            if self.health_success_count >= success_threshold {
                self.health_success_count = 0;
            }
        } else {
            self.health_failure_count = self.health_failure_count + 1;
            self.health_success_count = 0;
            if self.health_failure_count >= failure_threshold {
                let consecutive_failures = self.health_failure_count;
                self.health_failure_count = 0;
                return HealthVerdict::Unhealthy { consecutive_failures };
            }
        }
        self.health_check_timer = Some(now + interval_ms);
        HealthVerdict::Continue
    }

    /// Milliseconds until each pending timer fires, measured from `now`
    /// (zero for a timer already due): readiness, liveness and startup.
    pub fn pending_timers(&self, now: u64) -> (r: (Option<u64>, Option<u64>, Option<u64>))
        ensures
            r.0 == until(self.readiness_check_timer, now),
            r.1 == until(self.health_check_timer, now),
            r.2 == until(self.startup_timeout_timer, now),
    {
        (until_exec(self.readiness_check_timer, now), until_exec(self.health_check_timer, now),
            until_exec(self.startup_timeout_timer, now))
    }

    /// Whether a specification update restarts the service: a running
    /// service is restarted, since every change calls for a restart, and an
    /// idle one only keeps the new specification.
    pub fn restart_on_spec_update(&self) -> (b: bool)
        ensures
            b == (self.state != ServiceState::Idle),
    {
        self.state != ServiceState::Idle && needs_restart_for_spec_change()
    }

    /// Consecutive failed liveness checks.
    pub fn consecutive_health_failures(&self) -> (n: u32)
        ensures
            n == self.health_failure_count,
    {
        self.health_failure_count
    }

    /// Consecutive successful readiness checks.
    pub fn consecutive_readiness_successes(&self) -> (n: u32)
        ensures
            n == self.readiness_success_count,
    {
        self.readiness_success_count
    }
}

/// The two string lists hold the same strings in the same order.
pub open spec fn same_strings(a: Seq<String>, b: Seq<String>) -> bool {
    string_views(a) == string_views(b)
}

/// The two variable lists hold the same name/value pairs in the same order.
pub open spec fn same_env(a: Seq<(String, String)>, b: Seq<(String, String)>) -> bool {
    a.len() == b.len() && forall|i: int| #![trigger a[i]] 0 <= i < a.len() ==> a[i].0@ == b[i].0@ && a[i].1@ == b[i].1@
}

/// The two optional strings are equal.
pub open spec fn same_opt_string(a: Option<String>, b: Option<String>) -> bool {
    match (a, b) {
        (Some(x), Some(y)) => x@ == y@,
        (None, None) => true,
        _ => false,
    }
}

/// The two probe kinds are equal.
pub open spec fn same_check_type(a: HealthCheckType, b: HealthCheckType) -> bool {
    match (a, b) {
        (HealthCheckType::Tcp { port: p }, HealthCheckType::Tcp { port: q }) => p == q,
        (HealthCheckType::Exec { command: c, args: x }, HealthCheckType::Exec { command: d, args: y }) => c@ == d@
            && same_strings(x@, y@),
        _ => false,
    }
}

/// The two optional liveness checks are equal.
pub open spec fn same_health(a: Option<HealthCheck>, b: Option<HealthCheck>) -> bool {
    match (a, b) {
        (Some(x), Some(y)) => same_check_type(x.check_type, y.check_type) && x.interval_secs == y.interval_secs
            && x.timeout_secs == y.timeout_secs && x.failure_threshold == y.failure_threshold
            && x.success_threshold == y.success_threshold,
        (None, None) => true,
        _ => false,
    }
}

/// The two optional readiness checks are equal.
pub open spec fn same_readiness(a: Option<ReadinessCheck>, b: Option<ReadinessCheck>) -> bool {
    match (a, b) {
        (Some(x), Some(y)) => same_check_type(x.check_type, y.check_type) && x.initial_delay_secs
            == y.initial_delay_secs && x.interval_secs == y.interval_secs && x.timeout_secs == y.timeout_secs
            && x.success_threshold == y.success_threshold,
        (None, None) => true,
        _ => false,
    }
}

/// `acc` followed by `name` when `changed` holds.
pub open spec fn note_if(acc: Seq<Seq<char>>, changed: bool, name: Seq<char>) -> Seq<Seq<char>> {
    if changed { acc.push(name) } else { acc }
}

/// Names of the fields that differ between two specifications, in a fixed order.
pub open spec fn changed_fields(a: ServiceSpec, b: ServiceSpec) -> Seq<Seq<char>> {
    let s0 = note_if(Seq::empty(), a.command@ != b.command@, "command"@);
    let s1 = note_if(s0, !same_strings(a.args@, b.args@), "args"@);
    let s2 = note_if(s1, !same_env(a.environment@, b.environment@), "environment"@);
    let s3 = note_if(s2, !same_opt_string(a.working_directory, b.working_directory), "workingDirectory"@);
    let s4 = note_if(s3, a.restart_policy != b.restart_policy, "restartPolicy"@);
    let s5 = note_if(s4, !same_health(a.health_check, b.health_check), "healthCheck"@);
    let s6 = note_if(s5, !same_readiness(a.readiness_check, b.readiness_check), "readinessCheck"@);
    let s7 = note_if(s6, a.graceful_timeout_secs != b.graceful_timeout_secs, "gracefulTimeoutSecs"@);
    note_if(s7, a.startup_timeout_secs != b.startup_timeout_secs, "startupTimeoutSecs"@)
}

fn strings_equal(a: &Vec<String>, b: &Vec<String>) -> (r: bool)
    ensures
        r == same_strings(a@, b@),
{
    if a.len() != b.len() {
        proof {
            assert(string_views(a@).len() != string_views(b@).len());
        }
        return false;
    }
    let mut i: usize = 0;
    while i < a.len()
        invariant
            a@.len() == b@.len(),
            i <= a@.len(),
            forall|k: int| 0 <= k < i ==> a@[k]@ == b@[k]@,
        decreases a@.len() - i,
    {
        if a[i] != b[i] {
            proof {
                assert(string_views(a@)[i as int] != string_views(b@)[i as int]);
            }
            return false;
        }
        i = i + 1;
    }
    assert(string_views(a@) =~= string_views(b@));
    true
}

fn env_equal(a: &Vec<(String, String)>, b: &Vec<(String, String)>) -> (r: bool)
    ensures
        r == same_env(a@, b@),
{
    if a.len() != b.len() {
        return false;
    }
    let mut i: usize = 0;
    while i < a.len()
        invariant
            a@.len() == b@.len(),
            i <= a@.len(),
            forall|k: int| #![trigger a@[k]] 0 <= k < i ==> a@[k].0@ == b@[k].0@ && a@[k].1@ == b@[k].1@,
        decreases a@.len() - i,
    {
        if a[i].0 != b[i].0 || a[i].1 != b[i].1 {
            return false;
        }
        i = i + 1;
    }
    true
}

fn opt_string_equal(a: &Option<String>, b: &Option<String>) -> (r: bool)
    ensures
        r == same_opt_string(*a, *b),
{
    match (a, b) {
        (Some(x), Some(y)) => *x == *y,
        (None, None) => true,
        _ => false,
    }
}

fn check_type_equal(a: &HealthCheckType, b: &HealthCheckType) -> (r: bool)
    ensures
        r == same_check_type(*a, *b),
{
    match (a, b) {
        (HealthCheckType::Tcp { port: p }, HealthCheckType::Tcp { port: q }) => *p == *q,
        (HealthCheckType::Exec { command: c, args: x }, HealthCheckType::Exec { command: d, args: y }) => *c == *d
            && strings_equal(x, y),
        _ => false,
    }
}

fn health_equal(a: &Option<HealthCheck>, b: &Option<HealthCheck>) -> (r: bool)
    ensures
        r == same_health(*a, *b),
{
    match (a, b) {
        (Some(x), Some(y)) => check_type_equal(&x.check_type, &y.check_type) && x.interval_secs == y.interval_secs
            && x.timeout_secs == y.timeout_secs && x.failure_threshold == y.failure_threshold
            && x.success_threshold == y.success_threshold,
        (None, None) => true,
        _ => false,
    }
}

fn readiness_equal(a: &Option<ReadinessCheck>, b: &Option<ReadinessCheck>) -> (r: bool)
    ensures
        r == same_readiness(*a, *b),
{
    match (a, b) {
        (Some(x), Some(y)) => check_type_equal(&x.check_type, &y.check_type) && x.initial_delay_secs
            == y.initial_delay_secs && x.interval_secs == y.interval_secs && x.timeout_secs == y.timeout_secs
            && x.success_threshold == y.success_threshold,
        (None, None) => true,
        _ => false,
    }
}

/// The names of the fields that differ between the current specification
/// and a new one, in the order command, args, environment,
/// workingDirectory, restartPolicy, healthCheck, readinessCheck,
/// gracefulTimeoutSecs, startupTimeoutSecs.
pub fn get_changed_fields(current: &ServiceSpec, new_spec: &ServiceSpec) -> (v: Vec<String>)
    ensures
        string_views(v@) == changed_fields(*current, *new_spec),
{
    let mut changed: Vec<String> = Vec::new();
    assert(string_views(changed@) =~= Seq::<Seq<char>>::empty());
    push_if(&mut changed, current.command != new_spec.command, "command");
    push_if(&mut changed, !strings_equal(&current.args, &new_spec.args), "args");
    push_if(&mut changed, !env_equal(&current.environment, &new_spec.environment), "environment");
    push_if(
        &mut changed,
        !opt_string_equal(&current.working_directory, &new_spec.working_directory),
        "workingDirectory",
    );
    push_if(&mut changed, current.restart_policy != new_spec.restart_policy, "restartPolicy");
    push_if(&mut changed, !health_equal(&current.health_check, &new_spec.health_check), "healthCheck");
    push_if(&mut changed, !readiness_equal(&current.readiness_check, &new_spec.readiness_check), "readinessCheck");
    push_if(&mut changed, current.graceful_timeout_secs != new_spec.graceful_timeout_secs, "gracefulTimeoutSecs");
    push_if(&mut changed, current.startup_timeout_secs != new_spec.startup_timeout_secs, "startupTimeoutSecs");
    changed
}

fn push_if(changed: &mut Vec<String>, cond: bool, name: &str)
    ensures
        string_views(final(changed)@) == note_if(string_views(old(changed)@), cond, name@),
{
    if cond {
        changed.push(owned(name));
        assert(string_views(changed@) =~= string_views(old(changed)@).push(name@));
    }
}

/// Whether a running service is restarted when its specification changes:
/// every change calls for a restart.
pub fn needs_restart_for_spec_change() -> (b: bool)
    ensures
        b,
{
    true
}

/// The error answered to a request for an on-demand check that the
/// service does not configure.
pub fn missing_check_error(readiness: bool) -> (e: CoreError)
    ensures
        e matches CoreError::ServiceError(m) && m@ == (if readiness {
            "No readiness check configured"@
        } else {
            "No health check configured"@
        }),
{
    if readiness {
        CoreError::ServiceError(owned("No readiness check configured"))
    } else {
        CoreError::ServiceError(owned("No health check configured"))
    }
}

/// A specification compared with itself has no changed field.
pub proof fn lemma_no_change_against_itself(a: ServiceSpec)
    ensures
        changed_fields(a, a) == Seq::<Seq<char>>::empty(),
{
    assert(same_env(a.environment@, a.environment@));
    assert(same_health(a.health_check, a.health_check)) by {
        if let Some(h) = a.health_check {
            assert(same_check_type(h.check_type, h.check_type));
        }
    }
    assert(same_readiness(a.readiness_check, a.readiness_check)) by {
        if let Some(r) = a.readiness_check {
            assert(same_check_type(r.check_type, r.check_type));
        }
    }
    assert(same_opt_string(a.working_directory, a.working_directory));
}

/// The two string lists differ: in length or in some element.
pub open spec fn strings_differ(a: Seq<String>, b: Seq<String>) -> bool {
    a.len() != b.len() || exists|i: int| 0 <= i < a.len() && #[trigger] a[i]@ != b[i]@
}

/// The two variable lists differ: in length, or in the name or value of some entry.
pub open spec fn env_differs(a: Seq<(String, String)>, b: Seq<(String, String)>) -> bool {
    a.len() != b.len() || exists|i: int| 0 <= i < a.len() && (#[trigger] a[i].0@ != b[i].0@ || a[i].1@ != b[i].1@)
}

/// The two optional strings differ: one is missing, or their texts differ.
pub open spec fn opt_string_differs(a: Option<String>, b: Option<String>) -> bool {
    (a is Some != b is Some) || (a matches Some(x) && b matches Some(y) && x@ != y@)
}

/// The two probe kinds differ: different kinds, TCP ports, or commands.
pub open spec fn probe_differs(a: HealthCheckType, b: HealthCheckType) -> bool {
    (a is Tcp != b is Tcp)
    || (a matches HealthCheckType::Tcp { port: p } && b matches HealthCheckType::Tcp { port: q } && p != q)
    || (a matches HealthCheckType::Exec { command: c, args: x } && b matches HealthCheckType::Exec { command: d, args: y }
        && (c@ != d@ || strings_differ(x@, y@)))
}

/// The two optional liveness checks differ in presence or in some setting.
pub open spec fn health_differs(a: Option<HealthCheck>, b: Option<HealthCheck>) -> bool {
    (a is Some != b is Some) || (a matches Some(x) && b matches Some(y) && (probe_differs(x.check_type, y.check_type)
        || x.interval_secs != y.interval_secs || x.timeout_secs != y.timeout_secs
        || x.failure_threshold != y.failure_threshold || x.success_threshold != y.success_threshold))
}

/// The two optional readiness checks differ in presence or in some setting.
pub open spec fn readiness_differs(a: Option<ReadinessCheck>, b: Option<ReadinessCheck>) -> bool {
    (a is Some != b is Some) || (a matches Some(x) && b matches Some(y) && (probe_differs(x.check_type, y.check_type)
        || x.initial_delay_secs != y.initial_delay_secs || x.interval_secs != y.interval_secs
        || x.timeout_secs != y.timeout_secs || x.success_threshold != y.success_threshold))
}

proof fn lemma_note_if_contains(acc: Seq<Seq<char>>, c: bool, name: Seq<char>, m: Seq<char>)
    ensures
        note_if(acc, c, name).contains(m) <==> (acc.contains(m) || (c && name == m)),
{
    if c {
        let r = acc.push(name);
        if r.contains(m) {
            let k = choose|k: int| 0 <= k < r.len() && r[k] == m;
            if k < acc.len() {
                assert(acc[k] == m);
            }
        }
        if acc.contains(m) {
            let k = choose|k: int| 0 <= k < acc.len() && acc[k] == m;
            assert(r[k] == m);
        }
        if name == m {
            assert(r[acc.len() as int] == m);
        }
    }
}

proof fn lemma_strings_differ(a: Seq<String>, b: Seq<String>)
    ensures
        same_strings(a, b) <==> !strings_differ(a, b),
{
    if !strings_differ(a, b) {
        assert(string_views(a) =~= string_views(b));
    }
    if same_strings(a, b) {
        assert(string_views(a).len() == string_views(b).len());
        assert forall|i: int| 0 <= i < a.len() implies #[trigger] a[i]@ == b[i]@ by {
            assert(string_views(a)[i] == string_views(b)[i]);
        }
    }
}

proof fn lemma_probe_differs(a: HealthCheckType, b: HealthCheckType)
    ensures
        same_check_type(a, b) <==> !probe_differs(a, b),
{
    if let (HealthCheckType::Exec { args: x, .. }, HealthCheckType::Exec { args: y, .. }) = (a, b) {
        lemma_strings_differ(x@, y@);
    }
}

/// A field is reported as changed exactly when its values in the two
/// specifications differ, lists element by element; no other name is
/// reported.
pub proof fn lemma_changed_fields_are_the_differing_ones(a: ServiceSpec, b: ServiceSpec)
    ensures
        changed_fields(a, b).contains("command"@) <==> a.command@ != b.command@,
        changed_fields(a, b).contains("args"@) <==> strings_differ(a.args@, b.args@),
        changed_fields(a, b).contains("environment"@) <==> env_differs(a.environment@, b.environment@),
        changed_fields(a, b).contains("workingDirectory"@) <==> opt_string_differs(a.working_directory, b.working_directory),
        changed_fields(a, b).contains("restartPolicy"@) <==> a.restart_policy != b.restart_policy,
        changed_fields(a, b).contains("healthCheck"@) <==> health_differs(a.health_check, b.health_check),
        changed_fields(a, b).contains("readinessCheck"@) <==> readiness_differs(a.readiness_check, b.readiness_check),
        changed_fields(a, b).contains("gracefulTimeoutSecs"@) <==> a.graceful_timeout_secs != b.graceful_timeout_secs,
        changed_fields(a, b).contains("startupTimeoutSecs"@) <==> a.startup_timeout_secs != b.startup_timeout_secs,
        forall|m: Seq<char>| #[trigger] changed_fields(a, b).contains(m) ==> m == "command"@ || m == "args"@
            || m == "environment"@ || m == "workingDirectory"@ || m == "restartPolicy"@ || m == "healthCheck"@
            || m == "readinessCheck"@ || m == "gracefulTimeoutSecs"@ || m == "startupTimeoutSecs"@,
{
    reveal_strlit("command");
    reveal_strlit("args");
    reveal_strlit("environment");
    reveal_strlit("workingDirectory");
    reveal_strlit("restartPolicy");
    reveal_strlit("healthCheck");
    reveal_strlit("readinessCheck");
    reveal_strlit("gracefulTimeoutSecs");
    reveal_strlit("startupTimeoutSecs");
    lemma_strings_differ(a.args@, b.args@);
    if let (Some(x), Some(y)) = (a.health_check, b.health_check) {
        lemma_probe_differs(x.check_type, y.check_type);
    }
    if let (Some(x), Some(y)) = (a.readiness_check, b.readiness_check) {
        lemma_probe_differs(x.check_type, y.check_type);
    }
    assert(same_env(a.environment@, b.environment@) <==> !env_differs(a.environment@, b.environment@));
    assert(same_opt_string(a.working_directory, b.working_directory)
        <==> !opt_string_differs(a.working_directory, b.working_directory));
    assert forall|m: Seq<char>| #![auto] changed_fields(a, b).contains(m) <==> (
        (a.command@ != b.command@ && m == "command"@)
        || (!same_strings(a.args@, b.args@) && m == "args"@)
        || (!same_env(a.environment@, b.environment@) && m == "environment"@)
        || (!same_opt_string(a.working_directory, b.working_directory) && m == "workingDirectory"@)
        || (a.restart_policy != b.restart_policy && m == "restartPolicy"@)
        || (!same_health(a.health_check, b.health_check) && m == "healthCheck"@)
        || (!same_readiness(a.readiness_check, b.readiness_check) && m == "readinessCheck"@)
        || (a.graceful_timeout_secs != b.graceful_timeout_secs && m == "gracefulTimeoutSecs"@)
        || (a.startup_timeout_secs != b.startup_timeout_secs && m == "startupTimeoutSecs"@)) by {
        let s0 = note_if(Seq::empty(), a.command@ != b.command@, "command"@);
        let s1 = note_if(s0, !same_strings(a.args@, b.args@), "args"@);
        let s2 = note_if(s1, !same_env(a.environment@, b.environment@), "environment"@);
        let s3 = note_if(s2, !same_opt_string(a.working_directory, b.working_directory), "workingDirectory"@);
        let s4 = note_if(s3, a.restart_policy != b.restart_policy, "restartPolicy"@);
        let s5 = note_if(s4, !same_health(a.health_check, b.health_check), "healthCheck"@);
        let s6 = note_if(s5, !same_readiness(a.readiness_check, b.readiness_check), "readinessCheck"@);
        let s7 = note_if(s6, a.graceful_timeout_secs != b.graceful_timeout_secs, "gracefulTimeoutSecs"@);
        lemma_note_if_contains(Seq::empty(), a.command@ != b.command@, "command"@, m);
        lemma_note_if_contains(s0, !same_strings(a.args@, b.args@), "args"@, m);
        lemma_note_if_contains(s1, !same_env(a.environment@, b.environment@), "environment"@, m);
        lemma_note_if_contains(s2, !same_opt_string(a.working_directory, b.working_directory), "workingDirectory"@, m);
        lemma_note_if_contains(s3, a.restart_policy != b.restart_policy, "restartPolicy"@, m);
        lemma_note_if_contains(s4, !same_health(a.health_check, b.health_check), "healthCheck"@, m);
        lemma_note_if_contains(s5, !same_readiness(a.readiness_check, b.readiness_check), "readinessCheck"@, m);
        lemma_note_if_contains(s6, a.graceful_timeout_secs != b.graceful_timeout_secs, "gracefulTimeoutSecs"@, m);
        lemma_note_if_contains(s7, a.startup_timeout_secs != b.startup_timeout_secs, "startupTimeoutSecs"@, m);
        assert(!Seq::<Seq<char>>::empty().contains(m));
    }
    let names = seq!["command"@, "args"@, "environment"@, "workingDirectory"@, "restartPolicy"@, "healthCheck"@,
        "readinessCheck"@, "gracefulTimeoutSecs"@, "startupTimeoutSecs"@];
    assert forall|i: int, j: int| 0 <= i < j < 9 implies #[trigger] names[i] != #[trigger] names[j] by {
        if names[i].len() == names[j].len() {
            assert(names[i][0] != names[j][0]);
        }
    }
    assert(names[0] != names[4]);
    assert(names[4] != names[0]);
}

/// Time left until `deadline`, saturating at zero.
pub open spec fn until(deadline: Option<u64>, now: u64) -> Option<u64> {
    match deadline {
        Some(t) => Some(if t >= now { (t - now) as u64 } else { 0 }),
        None => None,
    }
}

fn until_exec(deadline: Option<u64>, now: u64) -> (r: Option<u64>)
    ensures
        r == until(deadline, now),
{
    match deadline {
        Some(t) => Some(t.saturating_sub(now)),
        None => None,
    }
}

} // verus!
