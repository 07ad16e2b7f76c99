//! Error type shared by the library's operations.

use vstd::prelude::*;
use crate::text::{concat2, concat3, decimal, u64_to_decimal};

verus! {

/// Declares `std::io::Error` so that errors from the operating system can
/// be carried through the library's types.
#[verifier::external_type_specification]
#[verifier::external_body]
pub struct ExIoError(std::io::Error);

/// Declares `serde_json::Error` so that parse errors can be carried
/// through the library's types.
#[verifier::external_type_specification]
#[verifier::external_body]
pub struct ExJsonError(serde_json::Error);

/// The `Display` text of an I/O error; calls its `Display` implementation.
/// The text depends on the operating system's error messages and is not
/// described further.
#[verifier::external_body]
pub(crate) fn io_error_text(e: &std::io::Error) -> String {
    format!("{}", e)
}

/// The `Display` text of a JSON error; calls its `Display` implementation,
/// whose wording is the parser's and is not described further.
#[verifier::external_body]
pub(crate) fn json_error_text(e: &serde_json::Error) -> String {
    format!("{}", e)
}

/// Core error type.
#[derive(Debug)]
pub enum CoreError {
    /// Configuration-related errors.
    ConfigurationError(String),
    /// Validation errors for input data.
    ValidationError(String),
    /// Initialization and setup errors.
    InitializationError(String),
    /// Service operation errors.
    ServiceError(String),
    /// I/O operation errors.
    IoError(std::io::Error),
    /// JSON serialization/deserialization errors.
    SerializationError(serde_json::Error),
    /// The port is already in use.
    PortInUse(u16),
    /// No available port found after trying several.
    NoAvailablePort {
        /// Number of ports that were tried.
        tried: usize,
    },
    /// Process spawning errors.
    ProcessSpawn(String),
    /// Process signaling errors.
    ProcessSignal(String),
    /// Process waiting/status errors.
    ProcessWait(String),
    /// Generic or unspecified errors.
    Other(String),
}

/// The stable code of each kind of error.
pub open spec fn core_error_code(e: &CoreError) -> Seq<char> {
    match e {
        CoreError::ConfigurationError(_) => "CORE001"@,
        CoreError::ValidationError(_) => "CORE002"@,
        CoreError::InitializationError(_) => "CORE003"@,
        CoreError::ServiceError(_) => "CORE004"@,
        CoreError::IoError(_) => "CORE005"@,
        CoreError::SerializationError(_) => "CORE006"@,
        CoreError::PortInUse(_) => "CORE007"@,
        CoreError::NoAvailablePort { .. } => "CORE008"@,
        CoreError::ProcessSpawn(_) => "CORE009"@,
        CoreError::ProcessSignal(_) => "CORE010"@,
        CoreError::ProcessWait(_) => "CORE011"@,
        CoreError::Other(_) => "CORE999"@,
    }
}

/// The message of an error whose text is fully determined by its fields;
/// `None` for errors that wrap an outside error.
pub open spec fn core_error_message(e: &CoreError) -> Option<Seq<char>> {
    match e {
        CoreError::ConfigurationError(m) => Some("Configuration error: "@ + m@),
        CoreError::ValidationError(m) => Some("Validation error: "@ + m@),
        CoreError::InitializationError(m) => Some("Initialization error: "@ + m@),
        CoreError::ServiceError(m) => Some("Service error: "@ + m@),
        CoreError::IoError(_) => None,
        CoreError::SerializationError(_) => None,
        CoreError::PortInUse(p) => Some("Port "@ + decimal(*p as nat) + " is already in use"@),
        CoreError::NoAvailablePort { tried } => Some(
            "No available port found after trying "@ + decimal(*tried as nat) + " ports"@,
        ),
        CoreError::ProcessSpawn(m) => Some("Process spawn error: "@ + m@),
        CoreError::ProcessSignal(m) => Some("Process signal error: "@ + m@),
        CoreError::ProcessWait(m) => Some("Process wait error: "@ + m@),
        CoreError::Other(m) => Some("Generic error: "@ + m@),
    }
}

impl CoreError {
    /// Get the error code for this error type.
    pub fn code(&self) -> (c: &'static str)
        ensures
            c@ == core_error_code(self),
    {
        match self {
            CoreError::ConfigurationError(_) => "CORE001",
            CoreError::ValidationError(_) => "CORE002",
            CoreError::InitializationError(_) => "CORE003",
            CoreError::ServiceError(_) => "CORE004",
            CoreError::IoError(_) => "CORE005",
            CoreError::SerializationError(_) => "CORE006",
            CoreError::PortInUse(_) => "CORE007",
            CoreError::NoAvailablePort { .. } => "CORE008",
            CoreError::ProcessSpawn(_) => "CORE009",
            CoreError::ProcessSignal(_) => "CORE010",
            CoreError::ProcessWait(_) => "CORE011",
            CoreError::Other(_) => "CORE999",
        }
    }

    /// The human-readable message of this error.
    pub fn to_string(&self) -> (s: String)
        ensures
            core_error_message(self) matches Some(m) ==> s@ == m,
            self matches CoreError::IoError(_) ==> exists|t: Seq<char>| s@ == "I/O error: "@ + t,
            self matches CoreError::SerializationError(_) ==> exists|t: Seq<char>|
                s@ == "Serialization error: "@ + t,
    {
        match self {
            CoreError::ConfigurationError(m) => concat2("Configuration error: ", m.as_str()),
            CoreError::ValidationError(m) => concat2("Validation error: ", m.as_str()),
            CoreError::InitializationError(m) => concat2("Initialization error: ", m.as_str()),
            CoreError::ServiceError(m) => concat2("Service error: ", m.as_str()),
            CoreError::IoError(e) => {
                let t = io_error_text(e);
                let s = concat2("I/O error: ", t.as_str());
                assert(s@ == "I/O error: "@ + t@);
                s
            },
            CoreError::SerializationError(e) => {
                let t = json_error_text(e);
                let s = concat2("Serialization error: ", t.as_str());
                assert(s@ == "Serialization error: "@ + t@);
                s
            },
            CoreError::PortInUse(p) => {
                let d = u64_to_decimal(*p as u64);
                concat3("Port ", d.as_str(), " is already in use")
            },
            CoreError::NoAvailablePort { tried } => {
                let d = u64_to_decimal(*tried as u64);
                concat3("No available port found after trying ", d.as_str(), " ports")
            },
            CoreError::ProcessSpawn(m) => concat2("Process spawn error: ", m.as_str()),
            CoreError::ProcessSignal(m) => concat2("Process signal error: ", m.as_str()),
            CoreError::ProcessWait(m) => concat2("Process wait error: ", m.as_str()),
            CoreError::Other(m) => concat2("Generic error: ", m.as_str()),
        }
    }
}

/// Errors of the daemon process.
#[derive(Debug)]
pub enum DaemonError {
    /// Server startup and operation errors.
    ServerError(String),
    /// Client connection handling errors.
    ConnectionError(String),
    /// I/O operation errors.
    IoError(std::io::Error),
    /// JSON serialization/deserialization errors.
    SerializationError(serde_json::Error),
}

impl DaemonError {
    /// The human-readable message of this error.
    pub fn to_string(&self) -> (s: String)
        ensures
            self matches DaemonError::ServerError(m) ==> s@ == "Server error: "@ + m@,
            self matches DaemonError::ConnectionError(m) ==> s@ == "Connection error: "@ + m@,
            self matches DaemonError::IoError(_) ==> exists|t: Seq<char>| s@ == "I/O error: "@ + t,
            self matches DaemonError::SerializationError(_) ==> exists|t: Seq<char>|
                s@ == "Serialization error: "@ + t,
    {
        match self {
            DaemonError::ServerError(m) => concat2("Server error: ", m.as_str()),
            DaemonError::ConnectionError(m) => concat2("Connection error: ", m.as_str()),
            DaemonError::IoError(e) => {
                let t = io_error_text(e);
                let s = concat2("I/O error: ", t.as_str());
                assert(s@ == "I/O error: "@ + t@);
                s
            },
            DaemonError::SerializationError(e) => {
                let t = json_error_text(e);
                let s = concat2("Serialization error: ", t.as_str());
                assert(s@ == "Serialization error: "@ + t@);
                s
            },
        }
    }
}

impl From<std::io::Error> for DaemonError {
    fn from(err: std::io::Error) -> (e: Self) {
        DaemonError::IoError(err)
    }
}

impl vstd::std_specs::convert::FromSpecImpl<std::io::Error> for DaemonError {
    open spec fn obeys_from_spec() -> bool {
        true
    }

    open spec fn from_spec(v: std::io::Error) -> Self {
        DaemonError::IoError(v)
    }
}

impl From<serde_json::Error> for DaemonError {
    fn from(err: serde_json::Error) -> (e: Self) {
        DaemonError::SerializationError(err)
    }
}

impl vstd::std_specs::convert::FromSpecImpl<serde_json::Error> for DaemonError {
    open spec fn obeys_from_spec() -> bool {
        true
    }

    open spec fn from_spec(v: serde_json::Error) -> Self {
        DaemonError::SerializationError(v)
    }
}

impl<'a> From<&'a str> for CoreError {
    fn from(s: &'a str) -> (e: Self)
        ensures
            e matches CoreError::Other(m) && m@ == s@,
    {
        CoreError::Other(s.to_string())
    }
}

impl<'a> vstd::std_specs::convert::FromSpecImpl<&'a str> for CoreError {
    /// A `String` is not determined by its characters in this logic, so
    /// the conversion is described by the `ensures` of `from` instead.
    open spec fn obeys_from_spec() -> bool {
        false
    }

    open spec fn from_spec(v: &'a str) -> Self {
        CoreError::Other(choose|m: String| m@ == v@)
    }
}

impl From<String> for CoreError {
    fn from(s: String) -> (e: Self) {
        CoreError::Other(s)
    }
}

impl vstd::std_specs::convert::FromSpecImpl<String> for CoreError {
    open spec fn obeys_from_spec() -> bool {
        true
    }

    open spec fn from_spec(v: String) -> Self {
        CoreError::Other(v)
    }
}

impl From<std::io::Error> for CoreError {
    fn from(err: std::io::Error) -> (e: Self) {
        CoreError::IoError(err)
    }
}

impl vstd::std_specs::convert::FromSpecImpl<std::io::Error> for CoreError {
    open spec fn obeys_from_spec() -> bool {
        true
    }

    open spec fn from_spec(v: std::io::Error) -> Self {
        CoreError::IoError(v)
    }
}

impl From<serde_json::Error> for CoreError {
    fn from(err: serde_json::Error) -> (e: Self) {
        CoreError::SerializationError(err)
    }
}

impl vstd::std_specs::convert::FromSpecImpl<serde_json::Error> for CoreError {
    open spec fn obeys_from_spec() -> bool {
        true
    }

    open spec fn from_spec(v: serde_json::Error) -> Self {
        CoreError::SerializationError(v)
    }
}

} // verus!
