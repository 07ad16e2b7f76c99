//! What the command-line client decides: its errors, what it makes of each
//! reply from the daemon, when it spawns a daemon and with which
//! arguments, and how a runtime configuration is applied to the services
//! the daemon knows.

use vstd::prelude::*;
use crate::config::{SimpleServiceConfig, SimpleServicesFile};
use crate::error::io_error_text;
use crate::logging::LogStream;
use crate::protocol::{answers, Message, Response, DAEMON_ALREADY_RUNNING};
use crate::supervisor::ServiceState;
use crate::text::{concat2, concat3, contains_string, decimal, owned, str_eq, string_views, u64_to_decimal};

verus! {

/// An error of the inter-process channel, as far as the client reads it:
/// whether the daemon could not be reached at all, and the error's text.
#[derive(Debug, Clone, PartialEq, Eq)]
pub struct IpcFailure {
    /// The connection to the daemon could not be established.
    pub connection_failed: bool,
    /// The channel's description of the error.
    pub text: String,
}

/// Errors of the command-line client.
#[derive(Debug)]
pub enum CliError {
    /// Command execution failures.
    CommandFailed(String),
    /// Invalid command line arguments.
    InvalidArgument(String),
    /// Configuration file or parameter errors.
    ConfigError(String),
    /// Network connection failures.
    ConnectionFailed(String),
    /// Daemon operation errors.
    DaemonError(String),
    /// Inter-process channel errors.
    IpcError(IpcFailure),
    /// I/O operation errors.
    IoError(std::io::Error),
}

/// The stable code of each kind of client error.
pub open spec fn cli_error_code(e: &CliError) -> Seq<char> {
    match e {
        CliError::CommandFailed(_) => "CLI001"@,
        CliError::InvalidArgument(_) => "CLI002"@,
        CliError::ConfigError(_) => "CLI003"@,
        CliError::ConnectionFailed(_) => "CLI004"@,
        CliError::DaemonError(_) => "CLI005"@,
        CliError::IpcError(_) => "CLI007"@,
        CliError::IoError(_) => "CLI008"@,
    }
}

impl CliError {
    /// Get the error code for this error type.
    pub fn code(&self) -> (c: &'static str)
        ensures
            c@ == cli_error_code(self),
    {
        match self {
            CliError::CommandFailed(_) => "CLI001",
            CliError::InvalidArgument(_) => "CLI002",
            CliError::ConfigError(_) => "CLI003",
            CliError::ConnectionFailed(_) => "CLI004",
            CliError::DaemonError(_) => "CLI005",
            CliError::IpcError(_) => "CLI007",
            CliError::IoError(_) => "CLI008",
        }
    }

    /// The human-readable message of this error.
    pub fn to_string(&self) -> (s: String)
        ensures
            self matches CliError::CommandFailed(m) ==> s@ == "Command failed: "@ + m@,
            self matches CliError::InvalidArgument(m) ==> s@ == "Invalid argument: "@ + m@,
            self matches CliError::ConfigError(m) ==> s@ == "Configuration error: "@ + m@,
            self matches CliError::ConnectionFailed(m) ==> s@ == "Connection failed: "@ + m@,
            self matches CliError::DaemonError(m) ==> s@ == "Daemon error: "@ + m@,
            self matches CliError::IpcError(f) ==> s@ == "IPC error: "@ + f.text@,
            self matches CliError::IoError(_) ==> exists|t: Seq<char>| s@ == "I/O error: "@ + t,
    {
        match self {
            CliError::CommandFailed(m) => concat2("Command failed: ", m.as_str()),
            CliError::InvalidArgument(m) => concat2("Invalid argument: ", m.as_str()),
            CliError::ConfigError(m) => concat2("Configuration error: ", m.as_str()),
            CliError::ConnectionFailed(m) => concat2("Connection failed: ", m.as_str()),
            CliError::DaemonError(m) => concat2("Daemon error: ", m.as_str()),
            CliError::IpcError(f) => concat2("IPC error: ", f.text.as_str()),
            CliError::IoError(e) => {
                let t = io_error_text(e);
                let s = concat2("I/O error: ", t.as_str());
                assert(s@ == "I/O error: "@ + t@);
                s
            },
        }
    }
}

impl From<std::io::Error> for CliError {
    fn from(err: std::io::Error) -> (e: Self) {
        CliError::IoError(err)
    }
}

impl vstd::std_specs::convert::FromSpecImpl<std::io::Error> for CliError {
    open spec fn obeys_from_spec() -> bool {
        true
    }

    open spec fn from_spec(v: std::io::Error) -> Self {
        CliError::IoError(v)
    }
}

impl From<IpcFailure> for CliError {
    fn from(err: IpcFailure) -> (e: Self) {
        CliError::IpcError(err)
    }
}

impl vstd::std_specs::convert::FromSpecImpl<IpcFailure> for CliError {
    open spec fn obeys_from_spec() -> bool {
        true
    }

    open spec fn from_spec(v: IpcFailure) -> Self {
        CliError::IpcError(v)
    }
}

/// The text reported for a reply of the wrong kind.
pub open spec fn unexpected_reply_text() -> Seq<char> {
    "Unexpected response type"@
}

/// The reply is an error carrying the code of a daemon that already runs.
pub open spec fn already_running(reply: Response) -> bool {
    reply matches Response::Error { code: Some(c), .. } && c@ == DAEMON_ALREADY_RUNNING@
}

/// What the client makes of the reply to a stop, restart or custom
/// request: the confirmation to show, or the daemon's error.
pub fn command_verdict(reply: Response) -> (r: Result<String, CliError>)
    ensures
        reply matches Response::Success { message } ==> r == Ok::<String, CliError>(message),
        reply matches Response::Error { message, .. } ==> r == Err::<String, CliError>(CliError::DaemonError(message)),
        reply is Status ==> (r matches Err(CliError::DaemonError(m)) && m@ == unexpected_reply_text()),
{
    match reply {
        Response::Success { message } => Ok(message),
        Response::Error { message, .. } => Err(CliError::DaemonError(message)),
        Response::Status { .. } => Err(CliError::DaemonError(owned("Unexpected response type"))),
    }
}

/// How a start request ended.
#[derive(Debug, Clone, PartialEq, Eq)]
pub enum StartOutcome {
    /// The daemon confirmed the start with this message.
    Started(String),
    /// The daemon was already running.
    AlreadyRunning,
}

/// What the client makes of the reply to a start request: a daemon that
/// is already running counts as started.
pub fn start_verdict(reply: Response) -> (r: Result<StartOutcome, CliError>)
    ensures
        reply matches Response::Success { message } ==> r == Ok::<StartOutcome, CliError>(StartOutcome::Started(message)),
        already_running(reply) ==> r == Ok::<StartOutcome, CliError>(StartOutcome::AlreadyRunning),
        reply matches Response::Error { message, .. } ==> (!already_running(reply) ==> r == Err::<
            StartOutcome,
            CliError,
        >(CliError::DaemonError(message))),
        reply is Status ==> (r matches Err(CliError::DaemonError(m)) && m@ == unexpected_reply_text()),
{
    match reply {
        Response::Success { message } => Ok(StartOutcome::Started(message)),
        Response::Error { message, code } => {
            let known = match &code {
                Some(c) => str_eq(c.as_str(), DAEMON_ALREADY_RUNNING),
                None => false,
            };
            if known {
                Ok(StartOutcome::AlreadyRunning)
            } else {
                Err(CliError::DaemonError(message))
            }
        },
        Response::Status { .. } => Err(CliError::DaemonError(owned("Unexpected response type"))),
    }
}

/// The first step of starting the daemon through a running daemon.
#[derive(Debug, Clone, PartialEq, Eq)]
pub enum StartStep {
    /// The running daemon answered.
    Answered(StartOutcome),
    /// No daemon could be reached: spawn one, wait for it, and ask again.
    SpawnDaemon,
}

/// Whether `sent` failed because no daemon could be reached.
pub open spec fn unreachable<T>(sent: Result<T, CliError>) -> bool {
    sent matches Err(CliError::IpcError(f)) && f.connection_failed
}

/// What the client does after sending a start request: judge the reply,
/// spawn a daemon when none could be reached, or report the failure.
pub fn start_attempt(sent: Result<Response, CliError>) -> (r: Result<StartStep, CliError>)
    ensures
        sent matches Ok(reply) ==> (match start_verdict_spec(reply) {
            Ok(o) => r == Ok::<StartStep, CliError>(StartStep::Answered(o)),
            Err(_) => r is Err,
        }),
        sent matches Ok(reply) ==> (reply matches Response::Error { message, .. } ==> (!already_running(reply)
            ==> r == Err::<StartStep, CliError>(CliError::DaemonError(message)))),
        sent matches Ok(reply) ==> (reply is Status ==> (r matches Err(CliError::DaemonError(m)) && m@
            == unexpected_reply_text())),
        unreachable(sent) ==> r == Ok::<StartStep, CliError>(StartStep::SpawnDaemon),
        sent matches Err(e) ==> (!unreachable(sent) ==> r == Err::<StartStep, CliError>(e)),
{
    match sent {
        Ok(reply) => match start_verdict(reply) {
            Ok(o) => Ok(StartStep::Answered(o)),
            Err(e) => Err(e),
        },
        Err(CliError::IpcError(f)) => {
            if f.connection_failed {
                Ok(StartStep::SpawnDaemon)
            } else {
                Err(CliError::IpcError(f))
            }
        },
        Err(e) => Err(e),
    }
}

/// The successful outcome of `start_verdict` on `reply`, if any.
pub open spec fn start_verdict_spec(reply: Response) -> Result<StartOutcome, ()> {
    match reply {
        Response::Success { message } => Ok(StartOutcome::Started(message)),
        Response::Error { .. } => if already_running(reply) {
            Ok(StartOutcome::AlreadyRunning)
        } else {
            Err(())
        },
        Response::Status { .. } => Err(()),
    }
}

/// Whatever state the daemon is in, the client takes the daemon's answer
/// to a start request as a successful start: a stopped daemon starts, and
/// a running one reports that it already runs.
pub proof fn lemma_start_request_always_succeeds(
    running: bool,
    uptime_seconds: u64,
    pid: u32,
    version: Seq<char>,
    reply: Response,
)
    requires
        answers(Message::Start, running, uptime_seconds, pid, version, reply),
    ensures
        start_verdict_spec(reply) is Ok,
        running ==> start_verdict_spec(reply) == Ok::<StartOutcome, ()>(StartOutcome::AlreadyRunning),
{
}

/// The daemon's status as the client reports it.
#[derive(Debug, Clone, PartialEq, Eq)]
pub enum StatusReport {
    /// The daemon answered with its status.
    Reported {
        /// Whether the daemon is serving requests.
        running: bool,
        /// Seconds since the daemon started.
        uptime_seconds: u64,
        /// Process id of the daemon.
        pid: u32,
        /// Version of the daemon, if known.
        version: Option<String>,
    },
    /// No daemon could be reached: it is not started.
    NotStarted,
}

/// What the client makes of a status request: the reported status, a
/// daemon that is not started when none could be reached, or the error.
pub fn status_verdict(sent: Result<Response, CliError>) -> (r: Result<StatusReport, CliError>)
    ensures
        sent matches Ok(Response::Status { running, uptime_seconds, pid, version }) ==> r == Ok::<
            StatusReport,
            CliError,
        >(StatusReport::Reported { running, uptime_seconds, pid, version }),
        sent matches Ok(Response::Error { message, .. }) ==> r == Err::<StatusReport, CliError>(
            CliError::DaemonError(message),
        ),
        sent matches Ok(Response::Success { .. }) ==> (r matches Err(CliError::DaemonError(m)) && m@
            == unexpected_reply_text()),
        unreachable(sent) ==> r == Ok::<StatusReport, CliError>(StatusReport::NotStarted),
        sent matches Err(e) ==> (!unreachable(sent) ==> r == Err::<StatusReport, CliError>(e)),
{
    match sent {
        Ok(Response::Status { running, uptime_seconds, pid, version }) => Ok(
            StatusReport::Reported { running, uptime_seconds, pid, version },
        ),
        Ok(Response::Error { message, .. }) => Err(CliError::DaemonError(message)),
        Ok(Response::Success { .. }) => Err(CliError::DaemonError(owned("Unexpected response type"))),
        Err(CliError::IpcError(f)) => {
            if f.connection_failed {
                Ok(StatusReport::NotStarted)
            } else {
                Err(CliError::IpcError(f))
            }
        },
        Err(e) => Err(e),
    }
}

/// What the client makes of the reply to a version request: the version
/// the daemon reports, or an error when it reports none.
pub fn version_verdict(reply: Response) -> (r: Result<String, CliError>)
    ensures
        reply matches Response::Status { version: Some(v), .. } ==> r == Ok::<String, CliError>(v),
        reply matches Response::Status { version: None, .. } ==> (r matches Err(CliError::DaemonError(m)) && m@
            == "version unavailable"@),
        reply matches Response::Error { message, .. } ==> r == Err::<String, CliError>(
            CliError::DaemonError(message),
        ),
        reply is Success ==> (r matches Err(CliError::DaemonError(m)) && m@ == "Unexpected response"@),
{
    match reply {
        Response::Status { version, .. } => match version {
            Some(v) => Ok(v),
            None => Err(CliError::DaemonError(owned("version unavailable"))),
        },
        Response::Error { message, .. } => Err(CliError::DaemonError(message)),
        Response::Success { .. } => Err(CliError::DaemonError(owned("Unexpected response"))),
    }
}

/// Whether a daemon must be spawned before the services are configured:
/// when the status request got no status reply or no daemon could be
/// reached; any other failure is reported.
pub fn needs_daemon_spawn(sent: Result<Response, CliError>) -> (r: Result<bool, CliError>)
    ensures
        sent matches Ok(reply) ==> r == Ok::<bool, CliError>(!(reply is Status)),
        unreachable(sent) ==> r == Ok::<bool, CliError>(true),
        sent matches Err(e) ==> (!unreachable(sent) ==> r == Err::<bool, CliError>(e)),
{
    match sent {
        Ok(Response::Status { .. }) => Ok(false),
        Ok(_) => Ok(true),
        Err(CliError::IpcError(f)) => {
            if f.connection_failed {
                Ok(true)
            } else {
                Err(CliError::IpcError(f))
            }
        },
        Err(e) => Err(e),
    }
}

/// One poll while waiting for a spawned daemon: ready once it reports that
/// it is running; a failed request becomes the error to report if the wait
/// times out, and any other reply keeps the earlier one.
pub fn readiness_poll(sent: Result<Response, CliError>, last_err: Option<CliError>) -> (r: (bool, Option<CliError>))
    ensures
        r.0 == (sent matches Ok(Response::Status { running, .. }) && running),
        sent is Ok ==> r.1 == last_err,
        sent matches Err(e) ==> r.1 == Some(e),
{
    match sent {
        Ok(Response::Status { running, .. }) => (running, last_err),
        Ok(_) => (false, last_err),
        Err(e) => (false, Some(e)),
    }
}

/// The error reported when a spawned daemon did not become ready in time:
/// the last failure seen, or a connection failure naming the timeout.
pub fn readiness_timeout_error(last_err: Option<CliError>) -> (e: CliError)
    ensures
        last_err matches Some(l) ==> e == l,
        last_err is None ==> (e matches CliError::ConnectionFailed(m) && m@ == "Timed out waiting for daemon"@),
{
    match last_err {
        Some(l) => l,
        None => CliError::ConnectionFailed(owned("Timed out waiting for daemon")),
    }
}

/// The arguments a spawned daemon is started with.
pub open spec fn daemon_arg_list(
    host: Seq<char>,
    port: u16,
    services_config: Option<Seq<char>>,
    runtime_config: Option<Seq<char>>,
) -> Seq<Seq<char>> {
    let base = seq!["--host"@, host, "--port"@, decimal(port as nat)];
    let with_services = match services_config {
        Some(p) => base + seq!["--config"@, p],
        None => base,
    };
    match runtime_config {
        Some(p) => with_services + seq!["--runtime-config"@, p],
        None => with_services,
    }
}

/// The arguments for a spawned daemon: its address, then the services and
/// runtime configuration paths when given.
pub fn daemon_args(host: &str, port: u16, services_config: Option<&str>, runtime_config: Option<&str>) -> (v: Vec<String>)
    ensures
        string_views(v@) == daemon_arg_list(
            host@,
            port,
            match services_config { Some(p) => Some(p@), None => None },
            match runtime_config { Some(p) => Some(p@), None => None },
        ),
{
    let mut v: Vec<String> = Vec::new();
    v.push(owned("--host"));
    v.push(owned(host));
    v.push(owned("--port"));
    v.push(u64_to_decimal(port as u64));
    let ghost base = string_views(v@);
    assert(base =~= seq!["--host"@, host@, "--port"@, decimal(port as nat)]);
    if let Some(p) = services_config {
        v.push(owned("--config"));
        v.push(owned(p));
    }
    let ghost mid = string_views(v@);
    assert(mid =~= match services_config { Some(p) => base + seq!["--config"@, p@], None => base });
    if let Some(p) = runtime_config {
        v.push(owned("--runtime-config"));
        v.push(owned(p));
    }
    assert(string_views(v@) =~= match runtime_config { Some(p) => mid + seq!["--runtime-config"@, p@], None => mid });
    v
}

/// What to do for one configured service when applying a runtime configuration.
#[derive(Debug, Clone, PartialEq, Eq)]
pub enum SyncStep {
    /// The daemon does not know the service: warn and skip it.
    Unknown(String),
    /// Look up the service and start it with these settings if it is idle.
    StartIfIdle {
        /// The service.
        id: String,
        /// Port to run on, if fixed.
        port: Option<u16>,
        /// Hostname alias, if any.
        hostname: Option<String>,
    },
}

/// The services the daemon knows that the configuration does not list.
pub open spec fn ids_to_remove(current: Seq<Seq<char>>, desired: Seq<Seq<char>>) -> Seq<Seq<char>> {
    current.filter(|id: Seq<char>| !desired.contains(id))
}

/// The ids of the configured services.
pub open spec fn configured_ids(desired: Seq<(String, SimpleServiceConfig)>) -> Seq<Seq<char>> {
    Seq::new(desired.len(), |k: int| desired[k].0@)
}

/// The step for configured service `entry`, given the ids the daemon knows.
pub open spec fn sync_step_for(current: Seq<Seq<char>>, entry: (String, SimpleServiceConfig)) -> SyncStep {
    if current.contains(entry.0@) {
        SyncStep::StartIfIdle { id: entry.0, port: entry.1.port, hostname: entry.1.hostname }
    } else {
        SyncStep::Unknown(entry.0)
    }
}

fn configured_id_list(desired: &SimpleServicesFile) -> (v: Vec<String>)
    ensures
        string_views(v@) == configured_ids(desired.entries()),
{
    let entries = desired.services();
    let mut v: Vec<String> = Vec::new();
    let mut i: usize = 0;
    while i < entries.len()
        invariant
            entries@ == desired.entries(),
            i <= desired.entries().len(),
            string_views(v@) =~= configured_ids(desired.entries()).take(i as int),
        decreases desired.entries().len() - i,
    {
        v.push(entries[i].0.clone());
        assert(configured_ids(desired.entries()).take(i as int + 1) =~= configured_ids(desired.entries()).take(
            i as int,
        ).push(desired.entries()[i as int].0@));
        i = i + 1;
    }
    assert(configured_ids(desired.entries()).take(i as int) =~= configured_ids(desired.entries()));
    v
}

/// Plan the application of a runtime configuration to the services the
/// daemon knows (`current`): the services to stop and forget, in order,
/// and one step per configured service, in order.
pub fn runtime_sync_plan(current: &Vec<String>, desired: &SimpleServicesFile) -> (r: (Vec<String>, Vec<SyncStep>))
    ensures
        string_views(r.0@) == ids_to_remove(string_views(current@), configured_ids(desired.entries())),
        r.1@.len() == desired.entries().len(),
        forall|k: int| 0 <= k < r.1@.len() ==> #[trigger] r.1@[k] == sync_step_for(
            string_views(current@),
            desired.entries()[k],
        ),
{
    let wanted = configured_id_list(desired);
    let ghost cur = string_views(current@);
    let ghost want = configured_ids(desired.entries());
    let mut removals: Vec<String> = Vec::new();
    let mut i: usize = 0;
    while i < current.len()
        invariant
            i <= current@.len(),
            cur == string_views(current@),
            string_views(wanted@) == want,
            string_views(removals@) == ids_to_remove(cur.take(i as int), want),
        decreases current@.len() - i,
    {
        proof {
            assert(cur.take(i as int + 1).drop_last() =~= cur.take(i as int));
            reveal(Seq::filter);
        }
        if !contains_string(&wanted, &current[i]) {
            removals.push(current[i].clone());
            assert(string_views(removals@) =~= ids_to_remove(cur.take(i as int), want).push(cur[i as int]));
        }
        i = i + 1;
    }
    assert(cur.take(i as int) =~= cur);
    let entries = desired.services();
    let mut steps: Vec<SyncStep> = Vec::new();
    let mut k: usize = 0;
    while k < entries.len()
        invariant
            entries@ == desired.entries(),
            k <= desired.entries().len(),
            cur == string_views(current@),
            steps@.len() == k,
            forall|j: int| 0 <= j < k ==> #[trigger] steps@[j] == sync_step_for(cur, desired.entries()[j]),
        decreases desired.entries().len() - k,
    {
        let entry = &entries[k];
        let step = if contains_string(current, &entry.0) {
            let hostname = match &entry.1.hostname {
                Some(h) => Some(h.clone()),
                None => None,
            };
            SyncStep::StartIfIdle { id: entry.0.clone(), port: entry.1.port, hostname }
        } else {
            SyncStep::Unknown(entry.0.clone())
        };
        steps.push(step);
        k = k + 1;
    }
    (removals, steps)
}

/// A configured service is started only when the daemon reports it idle;
/// one that already runs is left alone.
pub fn start_on_sync(state: ServiceState) -> (b: bool)
    ensures
        b == (state == ServiceState::Idle),
{
    state == ServiceState::Idle
}

/// The label of an output stream in printed log lines.
pub open spec fn stream_label(stream: LogStream) -> Seq<char> {
    match stream {
        LogStream::Stdout => "STDOUT"@,
        LogStream::Stderr => "STDERR"@,
    }
}

/// The line printed for one line of a service's output:
/// `timestamp [STDOUT] service: content`.
pub fn log_line(timestamp: &str, stream: LogStream, service_id: &str, content: &str) -> (s: String)
    ensures
        s@ == timestamp@ + " ["@ + stream_label(stream) + "] "@ + service_id@ + ": "@ + content@,
{
    let label = match stream {
        LogStream::Stdout => "STDOUT",
        LogStream::Stderr => "STDERR",
    };
    let head = concat3(timestamp, " [", label);
    let mid = concat3(head.as_str(), "] ", service_id);
    concat3(mid.as_str(), ": ", content)
}

} // verus!
