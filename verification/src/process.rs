//! Process management decisions: how a signal's outcome is judged, how an
//! exit status is described, and the behaviour of scripted mock processes.
//!
//! Spawning and signalling real processes is left to the caller.

use vstd::prelude::*;
use crate::error::CoreError;
use crate::health::TimeSpan;
use crate::restart_policy::ServiceExit;
use crate::text::{concat2, concat3, decimal, u64_to_decimal};

verus! {

/// Signal number of `SIGKILL`.
pub const SIGKILL: i32 = 9;
/// Signal number of `SIGTERM`.
pub const SIGTERM: i32 = 15;

/// Process adapter that runs services as Unix process groups.
#[derive(Debug, Clone, Copy, Default, PartialEq, Eq)]
pub struct UnixProcessAdapter;

impl UnixProcessAdapter {
    /// Create a new Unix process adapter.
    pub fn new() -> (a: Self)
        ensures
            a == UnixProcessAdapter,
    {
        UnixProcessAdapter
    }
}

/// What happened when a signal was sent to a process group.
#[derive(Debug, Clone, PartialEq, Eq)]
pub enum SignalOutcome {
    /// The signal was delivered.
    Delivered,
    /// The process group no longer exists.
    NoSuchGroup,
    /// Permission was denied, most likely because the group already exited.
    PermissionDenied,
    /// Any other failure, with its description.
    Failed(String),
}

/// Judge the outcome of sending `signal_name` to the group of `pid`: a
/// group that is gone or cannot be signalled any more counts as done; any
/// other failure is a `ProcessSignal` error naming the signal and group.
pub fn signal_result(signal_name: &str, pid: u32, outcome: SignalOutcome) -> (r: Result<(), CoreError>)
    ensures
        !(outcome is Failed) ==> r is Ok,
        outcome matches SignalOutcome::Failed(e) ==> (r matches Err(CoreError::ProcessSignal(m))
            && m@ == "Failed to send "@ + signal_name@ + " to process group "@ + decimal(pid as nat) + ": "@ + e@),
{
    match outcome {
        SignalOutcome::Delivered => Ok(()),
        SignalOutcome::NoSuchGroup => Ok(()),
        SignalOutcome::PermissionDenied => Ok(()),
        SignalOutcome::Failed(e) => {
            let head = concat3("Failed to send ", signal_name, " to process group ");
            let p = u64_to_decimal(pid as u64);
            let mid = concat3(head.as_str(), p.as_str(), ": ");
            Err(CoreError::ProcessSignal(concat2(mid.as_str(), e.as_str())))
        },
    }
}

/// Describe how a process ended: an exit code when it exited normally,
/// otherwise the signal that ended it.
pub fn exit_details(code: Option<i32>, signal: Option<i32>) -> (r: (Option<i32>, Option<i32>))
    ensures
        code is Some ==> r == (code, None::<i32>),
        code is None ==> r == (None::<i32>, signal),
{
    match code {
        Some(c) => (Some(c), None),
        None => (None, signal),
    }
}

/// Instructions for the behaviour of a mock process.
#[derive(Debug, Clone, Copy, PartialEq, Eq)]
pub struct MockInstruction {
    /// How long the process runs before it exits.
    pub exit_delay: TimeSpan,
    /// Exit code to report (`None` means ended by a signal).
    pub exit_code: Option<i32>,
    /// Signal that ended the process.
    pub signal: Option<i32>,
    /// Whether terminate and kill requests take effect.
    pub responds_to_signals: bool,
}

impl Default for MockInstruction {
    fn default() -> (m: Self)
        ensures
            m.exit_delay.total_nanos() == 100_000_000,
            m.exit_code == Some(0i32),
            m.signal is None,
            m.responds_to_signals,
    {
        MockInstruction {
            exit_delay: TimeSpan::from_millis(100),
            exit_code: Some(0),
            signal: None,
            responds_to_signals: true,
        }
    }
}

/// State of a mock process.
#[derive(Debug, Clone, Copy, PartialEq, Eq)]
pub struct MockManagedProcess {
    /// Process id reported for the mock.
    pub pid: u32,
    /// How the mock behaves.
    pub instruction: MockInstruction,
    /// A terminate request was received.
    pub terminated: bool,
    /// A kill request was received.
    pub killed: bool,
}

/// Whether `elapsed` has reached `delay`.
pub open spec fn reached(elapsed: TimeSpan, delay: TimeSpan) -> bool {
    elapsed.total_nanos() >= delay.total_nanos()
}

/// A pid for a mock process from a random draw: in `[1000, 66536)`.
pub fn mock_pid(draw: u32) -> (p: u32)
    ensures
        p == draw % 65536 + 1000,
{
    draw % 65536 + 1000
}

impl MockManagedProcess {
    /// A freshly started mock process.
    pub fn new(pid: u32, instruction: MockInstruction) -> (p: Self)
        ensures
            p == (MockManagedProcess { pid, instruction, terminated: false, killed: false }),
    {
        MockManagedProcess { pid, instruction, terminated: false, killed: false }
    }

    /// Whether the process has exited after running for `elapsed`: at once
    /// after a terminate or kill request, otherwise once its delay has passed.
    pub fn should_exit(&self, elapsed: TimeSpan) -> (b: bool)
        ensures
            b == (self.killed || self.terminated || reached(elapsed, self.instruction.exit_delay)),
    {
        if self.killed || self.terminated {
            return true;
        }
        let e_secs = elapsed.as_secs();
        let e_nanos = elapsed.subsec_nanos();
        let d_secs = self.instruction.exit_delay.as_secs();
        let d_nanos = self.instruction.exit_delay.subsec_nanos();
        if e_secs != d_secs {
            e_secs > d_secs
        } else {
            e_nanos >= d_nanos
        }
    }

    /// The exit reported for the process: ended by `SIGKILL` or `SIGTERM`
    /// after such a request when the process responds to signals (kill
    /// taking precedence), otherwise as the instructions say.
    pub fn create_exit(&self, timestamp: String) -> (e: ServiceExit)
        ensures
            e.pid == self.pid,
            e.timestamp == timestamp,
            self.killed && self.instruction.responds_to_signals ==> e.exit_code is None && e.signal == Some(SIGKILL),
            !(self.killed && self.instruction.responds_to_signals) && self.terminated
                && self.instruction.responds_to_signals ==> e.exit_code is None && e.signal == Some(SIGTERM),
            !((self.killed || self.terminated) && self.instruction.responds_to_signals) ==> e.exit_code
                == self.instruction.exit_code && e.signal == self.instruction.signal,
    {
        let (exit_code, signal) = if self.killed && self.instruction.responds_to_signals {
            (None, Some(SIGKILL))
        } else if self.terminated && self.instruction.responds_to_signals {
            (None, Some(SIGTERM))
        } else {
            (self.instruction.exit_code, self.instruction.signal)
        };
        ServiceExit { pid: self.pid, exit_code, signal, timestamp }
    }

    /// Record a terminate request.
    pub fn terminate(&mut self)
        ensures
            *final(self) == (MockManagedProcess { terminated: true, ..*old(self) }),
    {
        self.terminated = true;
    }

    /// Record a kill request.
    pub fn kill(&mut self)
        ensures
            *final(self) == (MockManagedProcess { killed: true, ..*old(self) }),
    {
        self.killed = true;
    }
}

} // verus!
