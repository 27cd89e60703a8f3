use mev_inspector::matcher::{Block, Transaction};
use mev_inspector::orchestrator::{step, Command, FeedEvent, Phase};
use mev_inspector::primitives::{Address, TxHash};
use mev_inspector::registry::RouterSet;

fn routers() -> RouterSet {
    RouterSet::new(vec![Address::new([0x99; 20])])
}

fn swap(sender: u8, h: u8) -> Transaction {
    Transaction {
        sender: Address::new([sender; 20]),
        recipient: Some(Address::new([0x99; 20])),
        hash: TxHash::new([h; 32]),
    }
}

#[test]
fn header_starts_a_fetch() {
    let (phase, cmd) = step(Phase::Listening, FeedEvent::Header { block_number: 5 }, &routers());
    assert_eq!(phase, Phase::Fetching { block_number: 5 });
    assert!(matches!(cmd, Command::Fetch { block_number: 5 }));
}

#[test]
fn fetched_block_is_matched_and_recorded() {
    let block = Block { number: 5, transactions: vec![swap(0x11, 1), swap(0x22, 2), swap(0x11, 3)] };
    let (phase, cmd) = step(Phase::Fetching { block_number: 5 }, FeedEvent::BlockFound(block), &routers());
    assert_eq!(phase, Phase::Listening);
    match cmd {
        Command::Record(events) => {
            assert_eq!(events.len(), 1);
            assert_eq!(events[0].block_number, 5);
        }
        _ => panic!("expected events to record"),
    }
}

#[test]
fn missing_or_failed_block_is_skipped() {
    let (phase, cmd) = step(Phase::Fetching { block_number: 9 }, FeedEvent::BlockMissing, &routers());
    assert_eq!(phase, Phase::Listening);
    assert!(matches!(cmd, Command::SkipMissing { block_number: 9 }));
    let (phase, cmd) = step(Phase::Fetching { block_number: 9 }, FeedEvent::FetchFailed, &routers());
    assert_eq!(phase, Phase::Listening);
    assert!(matches!(cmd, Command::SkipFailed { block_number: 9 }));
}

#[test]
fn shutdown_and_end_of_feed_stop() {
    let (phase, cmd) = step(Phase::Listening, FeedEvent::Shutdown, &routers());
    assert_eq!(phase, Phase::Stopped);
    assert!(matches!(cmd, Command::Finish));
    let (phase, cmd) = step(Phase::Fetching { block_number: 1 }, FeedEvent::StreamEnded, &routers());
    assert_eq!(phase, Phase::Stopped);
    assert!(matches!(cmd, Command::Finish));
    let (phase, cmd) = step(Phase::Stopped, FeedEvent::Header { block_number: 2 }, &routers());
    assert_eq!(phase, Phase::Stopped);
    assert!(matches!(cmd, Command::Finish));
}

#[test]
fn unexpected_report_waits() {
    let (phase, cmd) = step(Phase::Listening, FeedEvent::BlockMissing, &routers());
    assert_eq!(phase, Phase::Listening);
    assert!(matches!(cmd, Command::Wait));
}
