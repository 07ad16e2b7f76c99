//! Restart decisions and failure tracking within a sliding time window.
//!
//! Timestamps are whole seconds since the Unix epoch; durations are whole
//! seconds or milliseconds as their names say.

use vstd::prelude::*;

verus! {

/// Delay, in milliseconds, used for a restart when no failure lies in the
/// current window.
pub const MIN_RESTART_DELAY_MS: u64 = 100;

/// Action to take when a service exits.
#[derive(Debug, Clone, Copy, PartialEq, Eq)]
pub enum RestartAction {
    /// Restart the service after the given delay in milliseconds.
    Restart { delay_ms: u64 },
    /// Do not restart the service.
    Stop,
}

/// When a service is restarted after it exits.
#[derive(Debug, Clone, Copy, PartialEq, Eq, Structural)]
pub enum RestartPolicy {
    /// Restart after every exit.
    Always,
    /// Restart only after a failed exit.
    OnFailure,
    /// Never restart.
    Never,
}

/// First second that still lies inside a window of `window` seconds ending at `now`.
pub open spec fn window_start(now: u64, window: u64) -> u64 {
    if now >= window { (now - window) as u64 } else { 0 }
}

/// The failures of `s` that are at or after `start`, in their order.
pub open spec fn kept_since(s: Seq<u64>, start: u64) -> Seq<u64> {
    s.filter(|f: u64| f >= start)
}

/// Tracks service failures within a time window for backoff calculation.
#[derive(Debug, Clone)]
pub struct FailureTracker {
    failures: Vec<u64>,
    window_secs: u64,
}

impl FailureTracker {
    /// The recorded failure timestamps, oldest first.
    pub closed spec fn failures(&self) -> Seq<u64> {
        self.failures@
    }

    /// Length of the window in seconds.
    pub closed spec fn window(&self) -> u64 {
        self.window_secs
    }

    /// Number of failures at or after the start of the window ending at `now`.
    pub open spec fn count_at(&self, now: u64) -> nat {
        kept_since(self.failures(), window_start(now, self.window())).len()
    }

    /// Create a new failure tracker with a window of `window_secs` seconds.
    pub fn new(window_secs: u64) -> (t: Self)
        ensures
            t.failures() == Seq::<u64>::empty(),
            t.window() == window_secs,
    {
        FailureTracker { failures: Vec::new(), window_secs }
    }

    /// Length of the window in seconds.
    pub fn window_secs(&self) -> (w: u64)
        ensures
            w == self.window(),
    {
        self.window_secs
    }

    /// Record a failure at `timestamp_secs`, then drop every failure that
    /// lies before the window ending at that time.
    pub fn record_failure(&mut self, timestamp_secs: u64)
        ensures
            final(self).window() == old(self).window(),
            final(self).failures() == kept_since(
                old(self).failures().push(timestamp_secs),
                window_start(timestamp_secs, old(self).window()),
            ),
    {
        self.failures.push(timestamp_secs);
        self.cleanup_old_failures(timestamp_secs);
    }

    /// Clear all failures (called after a successful run).
    pub fn reset(&mut self)
        ensures
            final(self).window() == old(self).window(),
            final(self).failures() == Seq::<u64>::empty(),
    {
        self.failures.clear();
    }

    /// Number of failures in the window ending at `current_secs`; the
    /// tracker itself is left unchanged.
    pub fn failure_count(&self, current_secs: u64) -> (n: usize)
        ensures
            n == self.count_at(current_secs),
    {
        let start = self.current_window_start(current_secs);
        let mut n: usize = 0;
        let mut i: usize = 0;
        while i < self.failures.len()
            invariant
                i <= self.failures@.len(),
                n == kept_since(self.failures@.take(i as int), start).len(),
                n <= i,
            decreases self.failures@.len() - i,
        {
            proof {
                lemma_filter_take_step(self.failures@, i as int, start);
            }
            if self.failures[i] >= start {
                n = n + 1;
            }
            i = i + 1;
        }
        proof {
            assert(self.failures@.take(i as int) =~= self.failures@);
        }
        n
    }

    fn current_window_start(&self, current_secs: u64) -> (s: u64)
        ensures
            s == window_start(current_secs, self.window()),
    {
        current_secs.saturating_sub(self.window_secs)
    }

    /// Remove failures before the window ending at `current_secs`.
    fn cleanup_old_failures(&mut self, current_secs: u64)
        ensures
            final(self).window() == old(self).window(),
            final(self).failures() == kept_since(
                old(self).failures(),
                window_start(current_secs, old(self).window()),
            ),
    {
        let start = self.current_window_start(current_secs);
        let mut kept: Vec<u64> = Vec::new();
        let mut i: usize = 0;
        while i < self.failures.len()
            invariant
                i <= self.failures@.len(),
                kept@ == kept_since(self.failures@.take(i as int), start),
            decreases self.failures@.len() - i,
        {
            proof {
                lemma_filter_take_step(self.failures@, i as int, start);
            }
            let f = self.failures[i];
            if f >= start {
                kept.push(f);
            }
            i = i + 1;
        }
        proof {
            assert(self.failures@.take(i as int) =~= self.failures@);
        }
        self.failures = kept;
    }
}

/// How a process ended.
#[derive(Debug, Clone, PartialEq, Eq)]
pub struct ServiceExit {
    /// Process id of the exited process.
    pub pid: u32,
    /// Exit code, if the process exited normally.
    pub exit_code: Option<i32>,
    /// Signal that terminated the process, if any.
    pub signal: Option<i32>,
    /// RFC 3339 timestamp of the exit.
    pub timestamp: String,
}

impl ServiceExit {
    /// An exit is a failure unless the process exited with code 0.
    pub open spec fn spec_is_failure(&self) -> bool {
        self.exit_code != Some(0i32)
    }

    /// Whether this exit counts as a failure.
    pub fn is_failure(&self) -> (b: bool)
        ensures
            b == self.spec_is_failure(),
    {
        match self.exit_code {
            Some(code) => code != 0,
            None => true,
        }
    }
}

/// What the restart policy decided for one exit, before any delay is chosen.
#[derive(Debug, Clone, Copy, PartialEq, Eq)]
pub enum RestartDecision {
    /// Do not restart.
    Stop,
    /// Restart; the delay grows with the number of failures in the window.
    Restart { failures_in_window: usize },
}

/// Applies a restart policy to service exits and keeps the failure history
/// that backoff delays are computed from.
#[derive(Debug, Clone)]
pub struct RestartPolicyEngine {
    policy: RestartPolicy,
    failure_tracker: FailureTracker,
}

/// The decision for an exit under `policy`, given the failure history after
/// the exit has been accounted for.
pub open spec fn decision_for(policy: RestartPolicy, failure: bool, count: nat) -> RestartDecision {
    match policy {
        RestartPolicy::Never => RestartDecision::Stop,
        RestartPolicy::OnFailure => if failure {
            RestartDecision::Restart { failures_in_window: count as usize }
        } else {
            RestartDecision::Stop
        },
        RestartPolicy::Always => RestartDecision::Restart { failures_in_window: count as usize },
    }
}

/// The failure history after an exit at `now` under `policy`: failures are
/// recorded (restart policies other than `Never`), successes clear the history.
pub open spec fn history_after(
    policy: RestartPolicy,
    failure: bool,
    history: Seq<u64>,
    window: u64,
    now: u64,
) -> Seq<u64> {
    match policy {
        RestartPolicy::Never => history,
        _ => if failure {
            kept_since(history.push(now), window_start(now, window))
        } else {
            Seq::empty()
        },
    }
}

impl RestartPolicyEngine {
    /// The configured policy.
    pub closed spec fn policy(&self) -> RestartPolicy {
        self.policy
    }

    /// The failure tracker.
    pub closed spec fn tracker(&self) -> FailureTracker {
        self.failure_tracker
    }

    /// Create an engine for `policy` whose failure window is `failure_window_secs` long.
    pub fn new(policy: RestartPolicy, failure_window_secs: u64) -> (e: Self)
        ensures
            e.policy() == policy,
            e.tracker().failures() == Seq::<u64>::empty(),
            e.tracker().window() == failure_window_secs,
    {
        RestartPolicyEngine { policy, failure_tracker: FailureTracker::new(failure_window_secs) }
    }

    /// Decide what to do about an exit that happened at `now_secs`.
    ///
    /// `Never` stops and leaves the history alone. `OnFailure` records a
    /// failure and restarts, or clears the history and stops on success.
    /// `Always` restarts in every case, recording failures and clearing the
    /// history on success. A restart carries the number of failures in the
    /// window at `now_secs`.
    pub fn should_restart(&mut self, exit_info: &ServiceExit, now_secs: u64) -> (d: RestartDecision)
        ensures
            final(self).policy() == old(self).policy(),
            final(self).tracker().window() == old(self).tracker().window(),
            final(self).tracker().failures() == history_after(
                old(self).policy(),
                exit_info.spec_is_failure(),
                old(self).tracker().failures(),
                old(self).tracker().window(),
                now_secs,
            ),
            d == decision_for(
                old(self).policy(),
                exit_info.spec_is_failure(),
                final(self).tracker().count_at(now_secs),
            ),
    {
        let failure = exit_info.is_failure();
        match self.policy {
            RestartPolicy::Never => RestartDecision::Stop,
            RestartPolicy::OnFailure => {
                if failure {
                    self.failure_tracker.record_failure(now_secs);
                    let n = self.failure_tracker.failure_count(now_secs);
                    RestartDecision::Restart { failures_in_window: n }
                } else {
                    self.failure_tracker.reset();
                    RestartDecision::Stop
                }
            },
            RestartPolicy::Always => {
                if failure {
                    self.failure_tracker.record_failure(now_secs);
                } else {
                    self.failure_tracker.reset();
                }
                let n = self.failure_tracker.failure_count(now_secs);
                RestartDecision::Restart { failures_in_window: n }
            },
        }
    }

    /// Reset the failure tracker (called after a period of successful operation).
    pub fn reset_failures(&mut self)
        ensures
            final(self).policy() == old(self).policy(),
            final(self).tracker().window() == old(self).tracker().window(),
            final(self).tracker().failures() == Seq::<u64>::empty(),
    {
        self.failure_tracker.reset();
    }

    /// Number of failures in the window ending at `now_secs`.
    pub fn current_failure_count(&self, now_secs: u64) -> (n: usize)
        ensures
            n == self.tracker().count_at(now_secs),
    {
        self.failure_tracker.failure_count(now_secs)
    }
}

/// Under a restarting policy a failed exit always leads to a restart, and
/// the failure just recorded is counted in the backoff window.
pub proof fn lemma_failure_restarts_with_backoff(
    policy: RestartPolicy,
    history: Seq<u64>,
    window: u64,
    now: u64,
)
    requires
        policy != RestartPolicy::Never,
    ensures
        ({
            let h = history_after(policy, true, history, window, now);
            let n = kept_since(h, window_start(now, window)).len();
            &&& decision_for(policy, true, n) == (RestartDecision::Restart { failures_in_window: n as usize })
            &&& n >= 1
            &&& h.len() <= history.len() + 1
        }),
{
    let start = window_start(now, window);
    let p = history.push(now);
    let h = kept_since(p, start);
    lemma_kept_contains(p, start, p.len() - 1);
    lemma_kept_idempotent(p, start);
    p.lemma_filter_len(|f: u64| f >= start);
    assert(h.contains(now));
    assert(h.len() >= 1);
}

/// A successful exit clears the failure history: `OnFailure` then stops,
/// `Always` restarts with no failure in the window, `Never` stops.
pub proof fn lemma_success_clears_history(
    policy: RestartPolicy,
    history: Seq<u64>,
    window: u64,
    now: u64,
)
    requires
        policy != RestartPolicy::Never,
    ensures
        history_after(policy, false, history, window, now) == Seq::<u64>::empty(),
        decision_for(policy, false, 0) == if policy == RestartPolicy::Always {
            RestartDecision::Restart { failures_in_window: 0 }
        } else {
            RestartDecision::Stop
        },
{
}

/// The `Never` policy stops on every exit and leaves the history untouched.
pub proof fn lemma_never_policy_stops(failure: bool, history: Seq<u64>, window: u64, now: u64, n: nat)
    ensures
        decision_for(RestartPolicy::Never, failure, n) == RestartDecision::Stop,
        history_after(RestartPolicy::Never, failure, history, window, now) == history,
{
}

/// Failures age out: with no new failure, the number of failures in the
/// window never grows as time passes.
pub proof fn lemma_count_never_grows_over_time(t: FailureTracker, t1: u64, t2: u64)
    requires
        t1 <= t2,
    ensures
        t.count_at(t2) <= t.count_at(t1),
{
    let s1 = window_start(t1, t.window());
    let s2 = window_start(t2, t.window());
    assert(s1 <= s2);
    lemma_kept_later_start_shorter(t.failures(), s1, s2);
}

/// Backoff grows with each failure inside the window: when every recorded
/// failure still lies in the window ending at `now`, a failure at `now`
/// under a restarting policy restarts with one more failure counted than
/// were recorded, so the `k`-th such failure in a row is counted as `k`.
pub proof fn lemma_failures_in_window_accumulate(policy: RestartPolicy, history: Seq<u64>, window: u64, now: u64)
    requires
        policy != RestartPolicy::Never,
        forall|i: int| 0 <= i < history.len() ==> #[trigger] history[i] >= window_start(now, window),
    ensures
        ({
            let h = history_after(policy, true, history, window, now);
            &&& h == history.push(now)
            &&& decision_for(policy, true, kept_since(h, window_start(now, window)).len())
                == (RestartDecision::Restart { failures_in_window: (history.len() + 1) as usize })
        }),
{
    let start = window_start(now, window);
    let p = history.push(now);
    assert forall|i: int| 0 <= i < p.len() implies #[trigger] p[i] >= start by {
        if i < history.len() {
            assert(p[i] == history[i]);
        }
    }
    lemma_kept_all(p, start);
    lemma_kept_idempotent(p, start);
}

/// Filtering keeps everything when every element is kept.
proof fn lemma_kept_all(s: Seq<u64>, start: u64)
    requires
        forall|i: int| 0 <= i < s.len() ==> #[trigger] s[i] >= start,
    ensures
        kept_since(s, start) == s,
    decreases s.len(),
{
    reveal(Seq::filter);
    if s.len() > 0 {
        let p = s.drop_last();
        assert forall|i: int| 0 <= i < p.len() implies #[trigger] p[i] >= start by {
            assert(p[i] == s[i]);
        }
        lemma_kept_all(p, start);
        assert(p.push(s.last()) =~= s);
    } else {
        assert(kept_since(s, start) =~= s);
    }
}

proof fn lemma_kept_contains(s: Seq<u64>, start: u64, i: int)
    requires
        0 <= i < s.len(),
        s[i] >= start,
    ensures
        kept_since(s, start).contains(s[i]),
    decreases s.len(),
{
    reveal(Seq::filter);
    if i == s.len() - 1 {
        assert(kept_since(s, start) == kept_since(s.drop_last(), start).push(s[i]));
        assert(kept_since(s, start).last() == s[i]);
    } else {
        lemma_kept_contains(s.drop_last(), start, i);
        assert(s.drop_last()[i] == s[i]);
        let k = kept_since(s.drop_last(), start);
        let j = choose|j: int| 0 <= j < k.len() && k[j] == s[i];
        if s.last() >= start {
            assert(kept_since(s, start) == k.push(s.last()));
            assert(kept_since(s, start)[j] == s[i]);
        } else {
            assert(kept_since(s, start) == k);
        }
    }
}

proof fn lemma_kept_idempotent(s: Seq<u64>, start: u64)
    ensures
        kept_since(kept_since(s, start), start) == kept_since(s, start),
    decreases s.len(),
{
    reveal(Seq::filter);
    if s.len() > 0 {
        lemma_kept_idempotent(s.drop_last(), start);
        let k = kept_since(s.drop_last(), start);
        if s.last() >= start {
            assert(kept_since(s, start) == k.push(s.last()));
            assert(k.push(s.last()).drop_last() =~= k);
        }
    } else {
        assert(kept_since(s, start) =~= s);
    }
}

proof fn lemma_kept_later_start_shorter(s: Seq<u64>, s1: u64, s2: u64)
    requires
        s1 <= s2,
    ensures
        kept_since(s, s2).len() <= kept_since(s, s1).len(),
    decreases s.len(),
{
    reveal(Seq::filter);
    if s.len() > 0 {
        lemma_kept_later_start_shorter(s.drop_last(), s1, s2);
    }
}

/// Filtering a prefix one element longer adds that element exactly when
/// it is kept.
proof fn lemma_filter_take_step(s: Seq<u64>, i: int, start: u64)
    requires
        0 <= i < s.len(),
    ensures
        kept_since(s.take(i + 1), start) == if s[i] >= start {
            kept_since(s.take(i), start).push(s[i])
        } else {
            kept_since(s.take(i), start)
        },
{
    assert(s.take(i + 1).drop_last() =~= s.take(i));
    reveal(Seq::filter);
}

} // verus!
