//! Health checking: probe configuration, TCP probe targets and the errors
//! a probe can report.

use vstd::prelude::*;
use crate::error::io_error_text;
use crate::text::{concat2, concat3, decimal, owned, u64_to_decimal};

verus! {

/// Nanoseconds in one second.
pub const NANOS_PER_SEC: u32 = 1_000_000_000;

/// A span of time: whole seconds plus nanoseconds below one second.
#[derive(Debug, Clone, Copy, PartialEq, Eq)]
pub struct TimeSpan {
    secs: u64,
    nanos: u32,
}

/// The `Debug` text of the standard duration of `secs` seconds and `nanos`
/// nanoseconds, such as `500ms` or `5s`.
pub uninterp spec fn duration_debug_text(secs: u64, nanos: u32) -> Seq<char>;

/// Formats a duration the way `Debug` for `std::time::Duration` does;
/// calls `Duration::new` and that `Debug` implementation.
#[verifier::external_body]
fn duration_debug(secs: u64, nanos: u32) -> (s: String)
    requires
        nanos < NANOS_PER_SEC,
    ensures
        s@ == duration_debug_text(secs, nanos),
{
    format!("{:?}", std::time::Duration::new(secs, nanos))
}

impl TimeSpan {
    #[verifier::type_invariant]
    spec fn well_formed(self) -> bool {
        self.nanos < NANOS_PER_SEC
    }

    /// Whole seconds.
    pub closed spec fn spec_secs(self) -> u64 {
        self.secs
    }

    /// Nanoseconds beyond the whole seconds.
    pub closed spec fn spec_nanos(self) -> u32 {
        self.nanos
    }

    /// The span in nanoseconds.
    pub open spec fn total_nanos(self) -> int {
        self.spec_secs() * 1_000_000_000 + self.spec_nanos()
    }

    /// A span of `secs` whole seconds.
    pub fn from_secs(secs: u64) -> (t: Self)
        ensures
            t.spec_secs() == secs,
            t.spec_nanos() == 0,
    {
        TimeSpan { secs, nanos: 0 }
    }

    /// A span of `millis` milliseconds.
    pub fn from_millis(millis: u64) -> (t: Self)
        ensures
            t.total_nanos() == millis * 1_000_000,
            t.spec_nanos() < NANOS_PER_SEC,
    {
        let secs = millis / 1000;
        let nanos = ((millis % 1000) as u32) * 1_000_000;
        TimeSpan { secs, nanos }
    }

    /// Whole seconds of the span.
    pub fn as_secs(&self) -> (s: u64)
        ensures
            s == self.spec_secs(),
    {
        self.secs
    }

    /// Nanoseconds beyond the whole seconds.
    pub fn subsec_nanos(&self) -> (n: u32)
        ensures
            n == self.spec_nanos(),
            n < NANOS_PER_SEC,
    {
        proof { use_type_invariant(self); }
        self.nanos
    }

    /// The span as the standard library's `Debug` would print it.
    pub fn debug_text(&self) -> (s: String)
        ensures
            s@ == duration_debug_text(self.spec_secs(), self.spec_nanos()),
    {
        proof { use_type_invariant(self); }
        duration_debug(self.secs, self.nanos)
    }
}

/// Errors that can occur during health check operations.
#[derive(Debug)]
pub enum HealthError {
    /// The health check timed out.
    Timeout(TimeSpan),
    /// TCP connection failed.
    Tcp(std::io::Error),
    /// Unsupported probe type requested.
    UnsupportedProbeType(String),
}

impl HealthError {
    /// The human-readable message of this error.
    pub fn to_string(&self) -> (s: String)
        ensures
            self matches HealthError::Timeout(d) ==> s@ == "timeout after "@ + duration_debug_text(
                d.spec_secs(),
                d.spec_nanos(),
            ),
            self matches HealthError::Tcp(_) ==> exists|t: Seq<char>| s@ == "tcp connection failed: "@ + t,
            self matches HealthError::UnsupportedProbeType(name) ==> s@ == "unsupported probe type: "@ + name@,
    {
        match self {
            HealthError::Timeout(d) => {
                let t = d.debug_text();
                concat2("timeout after ", t.as_str())
            },
            HealthError::Tcp(e) => {
                let t = io_error_text(e);
                let s = concat2("tcp connection failed: ", t.as_str());
                assert(s@ == "tcp connection failed: "@ + t@);
                s
            },
            HealthError::UnsupportedProbeType(name) => concat2("unsupported probe type: ", name.as_str()),
        }
    }
}

impl From<std::io::Error> for HealthError {
    fn from(err: std::io::Error) -> (e: Self) {
        HealthError::Tcp(err)
    }
}

impl vstd::std_specs::convert::FromSpecImpl<std::io::Error> for HealthError {
    open spec fn obeys_from_spec() -> bool {
        true
    }

    open spec fn from_spec(v: std::io::Error) -> Self {
        HealthError::Tcp(v)
    }
}

/// What a health or readiness check probes.
#[derive(Debug, Clone, PartialEq, Eq)]
pub enum HealthCheckType {
    /// Connect to a local TCP port.
    Tcp {
        /// Port to connect to.
        port: u16,
    },
    /// Run a command.
    Exec {
        /// Program to run.
        command: String,
        /// Arguments of the program.
        args: Vec<String>,
    },
}

/// A liveness check and its schedule.
#[derive(Debug, Clone, PartialEq, Eq)]
pub struct HealthCheck {
    /// What to probe.
    pub check_type: HealthCheckType,
    /// Seconds between checks.
    pub interval_secs: u64,
    /// Seconds before a check times out.
    pub timeout_secs: u64,
    /// Consecutive failures before the service is restarted.
    pub failure_threshold: u32,
    /// Consecutive successes that count as healthy.
    pub success_threshold: u32,
}

impl HealthCheck {
    /// Time allowed for one check.
    pub fn timeout(&self) -> (t: TimeSpan)
        ensures
            t.spec_secs() == self.timeout_secs && t.spec_nanos() == 0,
    {
        TimeSpan::from_secs(self.timeout_secs)
    }

    /// Time between checks.
    pub fn interval(&self) -> (t: TimeSpan)
        ensures
            t.spec_secs() == self.interval_secs && t.spec_nanos() == 0,
    {
        TimeSpan::from_secs(self.interval_secs)
    }
}

/// A readiness check and its schedule.
#[derive(Debug, Clone, PartialEq, Eq)]
pub struct ReadinessCheck {
    /// What to probe.
    pub check_type: HealthCheckType,
    /// Seconds to wait after start before the first check.
    pub initial_delay_secs: u64,
    /// Seconds between checks.
    pub interval_secs: u64,
    /// Seconds before a check times out.
    pub timeout_secs: u64,
    /// Consecutive successes before the service is ready.
    pub success_threshold: u32,
}

/// TCP health probe that tests connection establishment.
#[derive(Debug, Clone)]
pub struct TcpProbe {
    host: String,
    port: u16,
    timeout: TimeSpan,
}

impl TcpProbe {
    /// Host to connect to.
    pub closed spec fn spec_host(&self) -> Seq<char> {
        self.host@
    }

    /// Port to connect to.
    pub closed spec fn spec_port(&self) -> u16 {
        self.port
    }

    /// Connection timeout.
    pub closed spec fn spec_timeout(&self) -> TimeSpan {
        self.timeout
    }

    /// Create a new TCP probe for `host:port` with the given timeout.
    pub fn new(host: &str, port: u16, timeout: TimeSpan) -> (p: Self)
        ensures
            p.spec_host() == host@,
            p.spec_port() == port,
            p.spec_timeout() == timeout,
    {
        TcpProbe { host: owned(host), port, timeout }
    }

    /// The target address as `host:port`.
    pub fn address(&self) -> (a: String)
        ensures
            a@ == self.spec_host() + ":"@ + decimal(self.spec_port() as nat),
    {
        let p = u64_to_decimal(self.port as u64);
        concat3(self.host.as_str(), ":", p.as_str())
    }

    /// Host to connect to.
    pub fn host(&self) -> (h: &str)
        ensures
            h@ == self.spec_host(),
    {
        self.host.as_str()
    }

    /// Port to connect to.
    pub fn port(&self) -> (p: u16)
        ensures
            p == self.spec_port(),
    {
        self.port
    }

    /// Connection timeout.
    pub fn timeout(&self) -> (t: TimeSpan)
        ensures
            t == self.spec_timeout(),
    {
        self.timeout
    }

    /// The probe's result for a connection attempt: a connection passes, a
    /// refused or failed connection is a TCP error, and an attempt that
    /// outlasted the timeout is a timeout after the probe's timeout.
    pub fn verdict(&self, outcome: ConnectOutcome) -> (r: Result<(), HealthError>)
        ensures
            outcome is Connected ==> r is Ok,
            outcome matches ConnectOutcome::Failed(e) ==> r == Err::<(), HealthError>(HealthError::Tcp(e)),
            outcome is TimedOut ==> r == Err::<(), HealthError>(HealthError::Timeout(self.spec_timeout())),
    {
        match outcome {
            ConnectOutcome::Connected => Ok(()),
            ConnectOutcome::Failed(e) => Err(HealthError::Tcp(e)),
            ConnectOutcome::TimedOut => Err(HealthError::Timeout(self.timeout)),
        }
    }
}

/// How an attempt to connect within the probe's timeout ended.
#[derive(Debug)]
pub enum ConnectOutcome {
    /// The connection was established.
    Connected,
    /// The connection failed with this error.
    Failed(std::io::Error),
    /// The timeout passed before the connection was established.
    TimedOut,
}

/// What an HTTP probe expects of the response.
#[derive(Debug, Clone, PartialEq, Eq)]
pub enum Expect {
    /// The response has exactly this status code.
    Status(u16),
    /// The response has a status code in the 2xx range.
    Any2xx,
    /// The response body contains this text.
    BodyContains(String),
}

/// HTTP health probe: the URL it requests, what it expects of the
/// response, and how long it waits.
#[derive(Debug, Clone)]
pub struct HttpProbe {
    url: String,
    expect: Expect,
    timeout: TimeSpan,
}

impl HttpProbe {
    /// URL to request.
    pub closed spec fn spec_url(&self) -> Seq<char> {
        self.url@
    }

    /// Expected response criteria.
    pub closed spec fn spec_expect(&self) -> Expect {
        self.expect
    }

    /// Request timeout.
    pub closed spec fn spec_timeout(&self) -> TimeSpan {
        self.timeout
    }

    /// Create a probe that requests `url`, validates the response against
    /// `expect` and waits at most `timeout`.
    pub fn new(url: String, expect: Expect, timeout: TimeSpan) -> (p: Self)
        ensures
            p.spec_url() == url@,
            p.spec_expect() == expect,
            p.spec_timeout() == timeout,
    {
        HttpProbe { url, expect, timeout }
    }

    /// The target URL.
    pub fn url(&self) -> (u: &str)
        ensures
            u@ == self.spec_url(),
    {
        self.url.as_str()
    }

    /// The expected response criteria.
    pub fn expect(&self) -> (e: &Expect)
        ensures
            *e == self.spec_expect(),
    {
        &self.expect
    }

    /// The request timeout.
    pub fn timeout(&self) -> (t: TimeSpan)
        ensures
            t == self.spec_timeout(),
    {
        self.timeout
    }
}

/// Build the probe for a check: a TCP check probes the given port on the
/// loopback address; command checks are not supported.
pub fn create_probe(check_type: &HealthCheckType, timeout: TimeSpan) -> (r: Result<TcpProbe, HealthError>)
    ensures
        check_type matches HealthCheckType::Tcp { port } ==> r matches Ok(p) && p.spec_host()
            == "127.0.0.1"@ && p.spec_port() == port && p.spec_timeout() == timeout,
        check_type matches HealthCheckType::Exec { .. } ==> r matches Err(HealthError::UnsupportedProbeType(m))
            && m@ == "Exec probes not yet implemented"@,
{
    match check_type {
        HealthCheckType::Tcp { port } => Ok(TcpProbe::new("127.0.0.1", *port, timeout)),
        HealthCheckType::Exec { .. } => Err(HealthError::UnsupportedProbeType(owned("Exec probes not yet implemented"))),
    }
}

} // verus!
