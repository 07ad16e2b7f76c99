//! Values exchanged with the desktop front end, and the bookkeeping of
//! log tails that follow one service each.

use vstd::prelude::*;
use crate::logging;

verus! {

/// Log stream direction in front-end event payloads.
#[derive(Debug, Clone, Copy, PartialEq, Eq, Structural)]
pub enum LogStream {
    /// Standard output.
    Stdout,
    /// Standard error.
    Stderr,
}

impl From<logging::LogStream> for LogStream {
    fn from(s: logging::LogStream) -> (r: Self) {
        match s {
            logging::LogStream::Stdout => LogStream::Stdout,
            logging::LogStream::Stderr => LogStream::Stderr,
        }
    }
}

impl vstd::std_specs::convert::FromSpecImpl<logging::LogStream> for LogStream {
    open spec fn obeys_from_spec() -> bool {
        true
    }

    open spec fn from_spec(s: logging::LogStream) -> Self {
        match s {
            logging::LogStream::Stdout => LogStream::Stdout,
            logging::LogStream::Stderr => LogStream::Stderr,
        }
    }
}

/// Payload emitted for each log line received.
#[derive(Debug, Clone)]
pub struct LogEventPayload {
    /// The service the line belongs to.
    pub service_id: String,
    /// The stream it came from.
    pub stream: LogStream,
    /// The line, without trailing newline.
    pub content: String,
    /// RFC 3339 timestamp of the line.
    pub timestamp: String,
}

/// Inbox filter as the front end sends it, with string-valued fields.
#[derive(Debug, Clone)]
pub struct InboxFilterInput {
    /// Status to show, if any.
    pub status: Option<String>,
    /// Source agent to show, if any.
    pub source_agent: Option<String>,
    /// Project to show, if any.
    pub project: Option<String>,
    /// Maximum number of items.
    pub limit: Option<u32>,
}

/// The generation given to a new tail of a service whose previous tail had
/// generation `previous`: one more (saturating), or 1 for the first.
pub fn next_generation(previous: Option<u64>) -> (g: u64)
    ensures
        previous is None ==> g == 1,
        previous matches Some(p) ==> g == (if p == u64::MAX { u64::MAX } else { (p + 1) as u64 }),
{
    match previous {
        Some(p) => p.saturating_add(1),
        None => 1,
    }
}

/// What a tail does with its entry once its task is running.
#[derive(Debug, Clone, Copy, PartialEq, Eq, Structural)]
pub enum TailClaim {
    /// The tail was cancelled or superseded: stop its task.
    Abort,
    /// An older tail is registered: stop that one and register this one.
    EvictAndClaim,
    /// This tail's placeholder is registered: register the running task.
    Claim,
}

/// What a tail of generation `generation` does when `stored` is registered
/// for its service.
pub open spec fn claim_for(stored: Option<u64>, generation: u64) -> TailClaim {
    match stored {
        None => TailClaim::Abort,
        Some(s) => if s > generation {
            TailClaim::Abort
        } else if s < generation {
            TailClaim::EvictAndClaim
        } else {
            TailClaim::Claim
        },
    }
}

/// Decide what a tail of generation `generation` does, given the generation
/// registered for its service when its task has started.
pub fn claim_after_start(stored: Option<u64>, generation: u64) -> (c: TailClaim)
    ensures
        c == claim_for(stored, generation),
{
    match stored {
        None => TailClaim::Abort,
        Some(s) => {
            if s > generation {
                TailClaim::Abort
            } else if s < generation {
                TailClaim::EvictAndClaim
            } else {
                TailClaim::Claim
            }
        },
    }
}

/// A tail only ever registers itself over an older or equal generation,
/// and never over a cancelled entry; a new tail's generation is above
/// the previous one until the counter saturates.
pub proof fn lemma_newer_tail_wins(stored: Option<u64>, generation: u64)
    ensures
        claim_for(stored, generation) != TailClaim::Abort ==> (stored matches Some(s) && s <= generation),
        stored matches Some(s) ==> (s > generation ==> claim_for(stored, generation) == TailClaim::Abort),
        stored matches Some(p) ==> (p < u64::MAX ==> claim_for(stored, (p + 1) as u64) == TailClaim::EvictAndClaim),
{
}

/// Whether a tail of generation `task_generation` whose stream has ended
/// removes the registered entry: only when the entry is still its own.
pub fn remove_after_end(stored: Option<u64>, task_generation: u64) -> (b: bool)
    ensures
        b == (stored == Some(task_generation)),
{
    match stored {
        Some(s) => s == task_generation,
        None => false,
    }
}

} // verus!
