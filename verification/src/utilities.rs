//! Validation of raw configuration data and of the daemon's settings.

use vstd::prelude::*;
use crate::error::{json_error_text, CoreError};
use crate::text::{concat2, owned, str_is_empty};

verus! {

/// Whether `s` is a well-formed JSON document, as `serde_json` judges it.
pub uninterp spec fn json_parses(s: Seq<char>) -> bool;

/// Parses `data` as a JSON value and discards it; calls
/// `serde_json::from_str::<serde_json::Value>`.
#[verifier::external_body]
fn parse_json_document(data: &str) -> (r: Result<(), serde_json::Error>)
    ensures
        r is Ok <==> json_parses(data@),
{
    serde_json::from_str::<serde_json::Value>(data).map(|_value| ())
}

/// The verdict on configuration data given the result of parsing it: a
/// parse error becomes a validation error quoting the parser's message.
pub fn config_data_verdict(parsed: Result<(), serde_json::Error>) -> (r: Result<(), CoreError>)
    ensures
        parsed is Ok ==> r is Ok,
        parsed is Err ==> (r matches Err(CoreError::ValidationError(m)) && exists|t: Seq<char>| m@ == "Invalid JSON: "@ + t),
{
    match parsed {
        Ok(()) => Ok(()),
        Err(e) => {
            let t = json_error_text(&e);
            let m = concat2("Invalid JSON: ", t.as_str());
            assert(m@ == "Invalid JSON: "@ + t@);
            Err(CoreError::ValidationError(m))
        },
    }
}

/// Validate configuration data: it must not be empty and must be a
/// well-formed JSON document.
pub fn validate_config_data(data: &str) -> (r: Result<(), CoreError>)
    ensures
        data@.len() == 0 ==> (r matches Err(CoreError::ValidationError(m))
            && m@ == "Configuration data cannot be empty"@),
        data@.len() > 0 ==> (r is Ok <==> json_parses(data@)),
        data@.len() > 0 && r is Err ==> (r matches Err(CoreError::ValidationError(m))
            && exists|t: Seq<char>| m@ == "Invalid JSON: "@ + t),
{
    if str_is_empty(data) {
        return Err(CoreError::ValidationError(owned("Configuration data cannot be empty")));
    }
    config_data_verdict(parse_json_document(data))
}

/// The daemon's network settings, as far as validation reads them.
#[derive(Debug, Clone, PartialEq, Eq)]
pub struct DaemonConfig {
    /// Address the daemon listens on.
    pub host: String,
    /// Port the daemon listens on.
    pub port: u16,
    /// Maximum number of simultaneous client connections.
    pub max_connections: u32,
}

impl Default for DaemonConfig {
    /// Listen on `127.0.0.1:49384` and accept up to 100 connections.
    fn default() -> (c: Self)
        ensures
            c.host@ == "127.0.0.1"@,
            c.port == 49384,
            c.max_connections == 100,
    {
        DaemonConfig { host: owned("127.0.0.1"), port: 49384, max_connections: 100 }
    }
}

/// Validate the daemon's settings: the port must not be 0, the host not
/// empty and the connection limit not 0, checked in that order.
pub fn validate_config(config: &DaemonConfig) -> (r: Result<(), CoreError>)
    ensures
        config.port == 0 ==> (r matches Err(CoreError::ConfigurationError(m)) && m@ == "Port cannot be 0"@),
        config.port != 0 && config.host@.len() == 0 ==> (r matches Err(CoreError::ConfigurationError(m))
            && m@ == "Host cannot be empty"@),
        config.port != 0 && config.host@.len() != 0 && config.max_connections == 0 ==> (r matches Err(
            CoreError::ConfigurationError(m),
        ) && m@ == "Max connections must be greater than 0"@),
        r is Ok <==> (config.port != 0 && config.host@.len() != 0 && config.max_connections != 0),
{
    if config.port == 0 {
        return Err(CoreError::ConfigurationError(owned("Port cannot be 0")));
    }
    if str_is_empty(config.host.as_str()) {
        return Err(CoreError::ConfigurationError(owned("Host cannot be empty")));
    }
    if config.max_connections == 0 {
        return Err(CoreError::ConfigurationError(owned("Max connections must be greater than 0")));
    }
    Ok(())
}

} // verus!
