use mev_inspector::matcher::{find_sandwiches, process_block, swap_candidates, Block, MevEvent, Transaction};
use mev_inspector::primitives::{Address, TxHash};
use mev_inspector::registry::RouterSet;

fn addr(b: u8) -> Address {
    Address::new([b; 20])
}

fn text(b: u8) -> String {
    format!("0x{}", format!("{:02x}", b).repeat(20))
}

fn hash(b: u8) -> TxHash {
    TxHash::new([b; 32])
}

fn hash_text(b: u8) -> String {
    format!("0x{}", format!("{:02x}", b).repeat(32))
}

const ROUTER: u8 = 0x99;
const OTHER: u8 = 0x98;

fn routers() -> RouterSet {
    RouterSet::new(vec![addr(ROUTER)])
}

fn swap(sender: u8, h: u8) -> Transaction {
    Transaction { sender: addr(sender), recipient: Some(addr(ROUTER)), hash: hash(h) }
}

fn transfer(sender: u8, h: u8) -> Transaction {
    Transaction { sender: addr(sender), recipient: Some(addr(OTHER)), hash: hash(h) }
}

fn block(transactions: Vec<Transaction>) -> Block {
    Block { number: 17, transactions }
}

const A: u8 = 0x11;
const V: u8 = 0x22;
const B: u8 = 0x33;
const V2: u8 = 0x44;

#[test]
fn scenario_a_one_event() {
    let events = process_block(&block(vec![swap(A, 1), swap(V, 2), swap(A, 3)]), &routers());
    assert_eq!(
        events,
        vec![MevEvent {
            block_number: 17,
            bot_address: text(A),
            victim_address: text(V),
            tx_front: hash_text(1),
            tx_victim: hash_text(2),
            tx_back: hash_text(3),
        }]
    );
}

#[test]
fn scenario_b_no_repeat_no_event() {
    let events = process_block(&block(vec![swap(A, 1), swap(V, 2), swap(B, 3)]), &routers());
    assert!(events.is_empty());
}

#[test]
fn scenario_c_repeat_first_two_no_event() {
    let events = process_block(&block(vec![swap(A, 1), swap(A, 2), swap(V, 3)]), &routers());
    assert!(events.is_empty());
}

#[test]
fn scenario_d_too_far_apart_no_event() {
    let txs = vec![
        swap(A, 1),
        transfer(B, 2),
        transfer(B, 3),
        transfer(B, 4),
        swap(V, 5),
        transfer(B, 6),
        swap(A, 7),
    ];
    let events = process_block(&block(txs), &routers());
    assert!(events.is_empty());
}

#[test]
fn overlapping_windows_all_reported() {
    let txs = vec![swap(A, 1), swap(V, 2), swap(A, 3), swap(V2, 4), swap(A, 5)];
    let events = process_block(&block(txs), &routers());
    assert_eq!(events.len(), 2);
    assert_eq!(events[0].victim_address, text(V));
    assert_eq!(events[0].tx_front, hash_text(1));
    assert_eq!(events[0].tx_back, hash_text(3));
    assert_eq!(events[1].victim_address, text(V2));
    assert_eq!(events[1].tx_front, hash_text(3));
    assert_eq!(events[1].tx_back, hash_text(5));
    assert_eq!(events[1].bot_address, text(A));
}

#[test]
fn fewer_than_three_swaps_no_event() {
    let txs = vec![swap(A, 1), swap(V, 2), transfer(A, 3)];
    assert!(process_block(&block(txs), &routers()).is_empty());
    assert!(process_block(&block(vec![]), &routers()).is_empty());
}

#[test]
fn distance_of_three_matches_and_four_does_not() {
    let three = vec![swap(A, 1), transfer(B, 2), swap(V, 3), swap(A, 4)];
    assert_eq!(process_block(&block(three), &routers()).len(), 1);
    let four = vec![swap(A, 1), transfer(B, 2), swap(V, 3), transfer(B, 4), swap(A, 5)];
    assert!(process_block(&block(four), &routers()).is_empty());
}

#[test]
fn self_sandwich_excluded() {
    let txs = vec![swap(A, 1), swap(A, 2), swap(A, 3)];
    assert!(process_block(&block(txs), &routers()).is_empty());
}

#[test]
fn matching_twice_gives_same_events() {
    let b = block(vec![swap(A, 1), swap(V, 2), swap(A, 3), swap(V2, 4), swap(A, 5)]);
    let first = process_block(&b, &routers());
    let second = process_block(&b, &routers());
    assert_eq!(first, second);
}

#[test]
fn contract_creation_is_not_a_candidate() {
    let creation = Transaction { sender: addr(V), recipient: None, hash: hash(2) };
    let txs = vec![swap(A, 1), creation, swap(A, 3)];
    assert!(process_block(&block(txs), &routers()).is_empty());
    let candidates = swap_candidates(&vec![swap(A, 1), creation, swap(A, 3)], &routers());
    assert_eq!(candidates.len(), 2);
    assert_eq!(candidates[1].position, 2);
}

#[test]
fn candidates_keep_block_positions() {
    let txs = vec![transfer(B, 1), swap(A, 2), transfer(B, 3), swap(V, 4)];
    let candidates = swap_candidates(&txs, &routers());
    assert_eq!(candidates.len(), 2);
    assert_eq!(candidates[0].position, 1);
    assert_eq!(candidates[0].sender, addr(A));
    assert_eq!(candidates[1].position, 3);
    assert_eq!(candidates[1].hash, hash(4));
}

#[test]
fn find_sandwiches_reads_front_victim_back() {
    let candidates = swap_candidates(&vec![swap(A, 1), swap(V, 2), swap(A, 3)], &routers());
    let found = find_sandwiches(&candidates);
    assert_eq!(found.len(), 1);
    assert_eq!(found[0].front.position, 0);
    assert_eq!(found[0].victim.sender, addr(V));
    assert_eq!(found[0].back.position, 2);
}

#[test]
fn events_carry_checksummed_router_style_addresses() {
    let bot = Address::parse("0x7a250d5630b4cf539739df2c5dacb4c659f2488d").unwrap();
    let txs = vec![
        Transaction { sender: bot, recipient: Some(addr(ROUTER)), hash: hash(0xab) },
        swap(V, 2),
        Transaction { sender: bot, recipient: Some(addr(ROUTER)), hash: hash(0xcd) },
    ];
    let events = process_block(&block(txs), &routers());
    assert_eq!(events.len(), 1);
    assert_eq!(events[0].bot_address, "0x7a250d5630B4cF539739dF2C5dAcb4c659F2488D");
    assert_eq!(events[0].tx_front, format!("0x{}", "ab".repeat(32)));
}
