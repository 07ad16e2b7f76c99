//! The control protocol between the command-line client and the daemon:
//! requests, replies, how the daemon answers each request, and how a
//! newline-delimited request frame is cut from the bytes received.

use vstd::prelude::*;
use crate::error::DaemonError;
use crate::text::{concat2, concat3, decimal, owned, u64_to_decimal};

verus! {

/// Largest request frame the daemon accepts, in bytes (64 KiB).
pub const MAX_FRAME_SIZE: usize = 65536;

/// Error code of a start request to a daemon that is already running.
pub const DAEMON_ALREADY_RUNNING: &'static str = "DAEMON_ALREADY_RUNNING";

/// A request sent to the daemon.
#[derive(Debug, Clone, PartialEq, Eq)]
pub enum Message {
    /// Ask for the daemon's status.
    Status,
    /// Ask the daemon to start.
    Start,
    /// Ask the daemon to stop.
    Stop,
    /// Ask the daemon to restart.
    Restart,
    /// A free-form command.
    Custom {
        /// The command text.
        cmd: String,
    },
}

/// A reply from the daemon.
#[derive(Debug, Clone, PartialEq, Eq)]
pub enum Response {
    /// The request was carried out.
    Success {
        /// Human-readable confirmation.
        message: String,
    },
    /// The request failed.
    Error {
        /// Human-readable description.
        message: String,
        /// Stable error code, if any.
        code: Option<String>,
    },
    /// The daemon's status.
    Status {
        /// Whether the daemon is serving requests.
        running: bool,
        /// Seconds since the daemon started.
        uptime_seconds: u64,
        /// Process id of the daemon.
        pid: u32,
        /// Version of the daemon, if known.
        version: Option<String>,
    },
}

/// Whether a daemon is running after answering `message`, having been
/// running (or not) before.
pub open spec fn running_after(message: Message, running: bool) -> bool {
    match message {
        Message::Start => true,
        Message::Stop => false,
        _ => running,
    }
}

/// The text of the reply to a request other than a status request.
pub open spec fn reply_text(message: Message, running: bool) -> Seq<char> {
    match message {
        Message::Status => Seq::empty(),
        Message::Start => if running { "Daemon is already running"@ } else { "Daemon started"@ },
        Message::Stop => "Daemon stopping"@,
        Message::Restart => "Restart acknowledged"@,
        Message::Custom { cmd } => "Processed: "@ + cmd@,
    }
}

/// `reply` is the daemon's answer to `message` when its running flag was
/// `running`: a status reply with the given uptime, pid and version; a
/// refusal with `DAEMON_ALREADY_RUNNING` to start a running daemon; an
/// acknowledgement with `reply_text` otherwise.
pub open spec fn answers(
    message: Message,
    running: bool,
    uptime_seconds: u64,
    pid: u32,
    version: Seq<char>,
    reply: Response,
) -> bool {
    if message is Status {
        reply matches Response::Status { running: b, uptime_seconds: u, pid: p, version: Some(v) }
            && b == running && u == uptime_seconds && p == pid && v@ == version
    } else if message is Start && running {
        reply matches Response::Error { message: m, code: Some(c) } && m@ == reply_text(message, running)
            && c@ == DAEMON_ALREADY_RUNNING@
    } else {
        reply matches Response::Success { message: m } && m@ == reply_text(message, running)
    }
}

/// The part of the daemon that answers requests: whether it is running.
#[derive(Debug, Clone, Copy, PartialEq, Eq)]
pub struct DaemonState {
    /// Whether the daemon is serving requests.
    pub running: bool,
}

impl DaemonState {
    /// A daemon that has not started serving yet.
    pub fn new() -> (d: Self)
        ensures
            !d.running,
    {
        DaemonState { running: false }
    }

    /// Answer `message`. A status request reports the running flag with the
    /// given uptime, pid and version; a start request starts a stopped
    /// daemon and is refused with `DAEMON_ALREADY_RUNNING` by a running one;
    /// a stop request stops it; a restart is acknowledged; a custom command
    /// is echoed back as processed.
    pub fn process_message(&mut self, message: Message, uptime_seconds: u64, pid: u32, version: &str) -> (r: Response)
        ensures
            final(self).running == running_after(message, old(self).running),
            answers(message, old(self).running, uptime_seconds, pid, version@, r),
    {
        match message {
            Message::Status => Response::Status {
                running: self.running,
                uptime_seconds,
                pid,
                version: Some(owned(version)),
            },
            Message::Start => {
                if self.running {
                    Response::Error {
                        message: owned("Daemon is already running"),
                        code: Some(owned(DAEMON_ALREADY_RUNNING)),
                    }
                } else {
                    self.running = true;
                    Response::Success { message: owned("Daemon started") }
                }
            },
            Message::Stop => {
                self.running = false;
                Response::Success { message: owned("Daemon stopping") }
            },
            Message::Restart => Response::Success { message: owned("Restart acknowledged") },
            Message::Custom { cmd } => Response::Success { message: concat2("Processed: ", cmd.as_str()) },
        }
    }

    /// Stop serving.
    pub fn stop(&mut self)
        ensures
            !final(self).running,
    {
        self.running = false;
    }
}

/// After a start request the daemon reports itself running, and after a
/// stop request not running, whatever it was before.
pub proof fn lemma_status_follows_start_and_stop(
    running: bool,
    started: bool,
    uptime_seconds: u64,
    pid: u32,
    version: Seq<char>,
    reply: Response,
)
    requires
        answers(
            Message::Status,
            running_after(if started { Message::Start } else { Message::Stop }, running),
            uptime_seconds,
            pid,
            version,
            reply,
        ),
    ensures
        reply matches Response::Status { running: b, .. } && b == started,
{
}

/// Only start and stop requests change whether the daemon runs: after a
/// status, restart or custom request it runs exactly when it ran before,
/// so a status request that follows reports the same running flag.
pub proof fn lemma_only_start_and_stop_change_running(
    message: Message,
    running: bool,
    uptime_seconds: u64,
    pid: u32,
    version: Seq<char>,
    reply: Response,
)
    requires
        !(message is Start),
        !(message is Stop),
    ensures
        running_after(message, running) == running,
        answers(Message::Status, running_after(message, running), uptime_seconds, pid, version, reply)
            ==> (reply matches Response::Status { running: b, .. } && b == running),
{
}

/// `frame` without one trailing newline and, before it, one carriage return.
pub open spec fn strip_line_end(frame: Seq<u8>) -> Seq<u8> {
    if frame.len() > 0 && frame.last() == 10u8 {
        let f = frame.drop_last();
        if f.len() > 0 && f.last() == 13u8 { f.drop_last() } else { f }
    } else {
        frame
    }
}

/// The message rejecting a frame of `len` bytes.
pub open spec fn oversize_message(len: nat) -> Seq<char> {
    "Request size "@ + decimal(len) + " exceeds maximum allowed size of 65536 bytes"@
}

/// The request carried by one frame read up to and including a newline:
/// a frame over `MAX_FRAME_SIZE` bytes is refused, the line ending is
/// removed, and an empty line carries no request (`None`).
pub fn frame_payload(frame: &Vec<u8>) -> (r: Result<Option<Vec<u8>>, DaemonError>)
    ensures
        frame@.len() > MAX_FRAME_SIZE ==> (r matches Err(DaemonError::ConnectionError(m))
            && m@ == oversize_message(frame@.len())),
        frame@.len() <= MAX_FRAME_SIZE ==> (if strip_line_end(frame@).len() == 0 {
            r == Ok::<Option<Vec<u8>>, DaemonError>(None)
        } else {
            r matches Ok(Some(p)) && p@ == strip_line_end(frame@)
        }),
{
    let len = frame.len();
    if len > MAX_FRAME_SIZE {
        let d = u64_to_decimal(len as u64);
        return Err(DaemonError::ConnectionError(
            concat3("Request size ", d.as_str(), " exceeds maximum allowed size of 65536 bytes"),
        ));
    }
    let mut end = len;
    if end > 0 && frame[end - 1] == 10u8 {
        end = end - 1;
        if end > 0 && frame[end - 1] == 13u8 {
            end = end - 1;
        }
    }
    if end == 0 {
        return Ok(None);
    }
    let mut payload: Vec<u8> = Vec::new();
    let mut i: usize = 0;
    while i < end
        invariant
            end <= frame@.len(),
            i <= end,
            payload@ == frame@.take(i as int),
        decreases end - i,
    {
        payload.push(frame[i]);
        assert(frame@.take(i as int + 1) =~= frame@.take(i as int).push(frame@[i as int]));
        i = i + 1;
    }
    proof {
        let s = strip_line_end(frame@);
        assert(s =~= frame@.take(end as int));
    }
    Ok(Some(payload))
}

} // verus!
