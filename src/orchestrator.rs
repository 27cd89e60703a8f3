//! The decisions of the live monitor: a state machine from the current phase
//! and what the block feed reported to the next phase and the command to
//! carry out. The loop that waits on the feed and performs the commands
//! lives outside the library.

use crate::matcher::{Block, MevEvent, block_sandwiches, process_block, records};
use crate::registry::RouterSet;
use vstd::prelude::*;

verus! {

/// Where the monitor stands.
#[derive(Clone, Copy, Debug, PartialEq, Eq, Structural)]
pub enum Phase {
    /// Waiting for the next block header.
    Listening,
    /// The full block with this number has been requested.
    Fetching { block_number: u64 },
    /// The feed ended or a shutdown was requested; nothing more happens.
    Stopped,
}

/// What the block feed or the operator reported.
#[derive(Clone, Debug)]
pub enum FeedEvent {
    /// A new block header arrived.
    Header { block_number: u64 },
    /// The requested block, with its full transaction list.
    BlockFound(Block),
    /// The requested block is not available yet.
    BlockMissing,
    /// Fetching the requested block failed in transport.
    FetchFailed,
    /// The header feed ended.
    StreamEnded,
    /// A shutdown was requested.
    Shutdown,
}

/// What the monitor asks its driver to do next.
#[derive(Clone, Debug)]
pub enum Command {
    /// Request the full block with this number.
    Fetch { block_number: u64 },
    /// Append these events, in order; then wait for the next header.
    Record(Vec<MevEvent>),
    /// Log that the block is not available yet and skip it.
    SkipMissing { block_number: u64 },
    /// Log the transport failure and skip the block.
    SkipFailed { block_number: u64 },
    /// Nothing to do for this report; keep waiting.
    Wait,
    /// Stop the loop.
    Finish,
}

/// The phase after `event` is handled in `phase`.
pub open spec fn next_phase(phase: Phase, event: FeedEvent) -> Phase {
    match (phase, event) {
        (Phase::Stopped, _) => Phase::Stopped,
        (_, FeedEvent::StreamEnded) => Phase::Stopped,
        (_, FeedEvent::Shutdown) => Phase::Stopped,
        (Phase::Listening, FeedEvent::Header { block_number }) => Phase::Fetching { block_number },
        (Phase::Fetching { .. }, FeedEvent::BlockFound(_)) => Phase::Listening,
        (Phase::Fetching { .. }, FeedEvent::BlockMissing) => Phase::Listening,
        (Phase::Fetching { .. }, FeedEvent::FetchFailed) => Phase::Listening,
        _ => phase,
    }
}

/// `cmd` is the command owed when `event` is handled in `phase`.
pub open spec fn command_for(
    phase: Phase,
    event: FeedEvent,
    routers: Set<Seq<u8>>,
    cmd: Command,
) -> bool {
    match (phase, event) {
        (Phase::Stopped, _) => cmd is Finish,
        (_, FeedEvent::StreamEnded) => cmd is Finish,
        (_, FeedEvent::Shutdown) => cmd is Finish,
        (Phase::Listening, FeedEvent::Header { block_number }) => cmd == (Command::Fetch {
            block_number,
        }),
        (Phase::Fetching { .. }, FeedEvent::BlockFound(block)) => match cmd {
            Command::Record(events) => records(
                events@,
                block.number,
                block_sandwiches(block, routers),
            ),
            _ => false,
        },
        (Phase::Fetching { block_number }, FeedEvent::BlockMissing) => cmd == (
        Command::SkipMissing { block_number }),
        (Phase::Fetching { block_number }, FeedEvent::FetchFailed) => cmd == (
        Command::SkipFailed { block_number }),
        _ => cmd is Wait,
    }
}

/// Handles one report: a header starts a fetch, a fetched block is matched
/// and its events recorded, a missing block or a transport failure is
/// skipped, and the end of the feed or a shutdown stops the monitor.
pub fn step(phase: Phase, event: FeedEvent, routers: &RouterSet) -> (r: (Phase, Command))
    ensures
        r.0 == next_phase(phase, event),
        command_for(phase, event, routers@, r.1),
{
    match (phase, event) {
        (Phase::Stopped, _) => (Phase::Stopped, Command::Finish),
        (_, FeedEvent::StreamEnded) => (Phase::Stopped, Command::Finish),
        (_, FeedEvent::Shutdown) => (Phase::Stopped, Command::Finish),
        (Phase::Listening, FeedEvent::Header { block_number }) => (
            Phase::Fetching { block_number },
            Command::Fetch { block_number },
        ),
        (Phase::Fetching { .. }, FeedEvent::BlockFound(block)) => {
            let events = process_block(&block, routers);
            (Phase::Listening, Command::Record(events))
        },
        (Phase::Fetching { block_number }, FeedEvent::BlockMissing) => (
            Phase::Listening,
            Command::SkipMissing { block_number },
        ),
        (Phase::Fetching { block_number }, FeedEvent::FetchFailed) => (
            Phase::Listening,
            Command::SkipFailed { block_number },
        ),
        (p, _) => (p, Command::Wait),
    }
}

} // verus!
