//! The sandwich pattern matcher: a pure function of one block's ordered
//! transactions and the router registry.

use crate::primitives::{checksum_text, prefixed_lower_hex, Address, TxHash};
use crate::registry::RouterSet;
use vstd::prelude::*;

verus! {

/// A transaction as the matcher sees it. `recipient` is absent for a
/// contract creation.
#[derive(Clone, Copy, Debug)]
pub struct Transaction {
    pub sender: Address,
    pub recipient: Option<Address>,
    pub hash: TxHash,
}

/// A block: its number and its transactions in inclusion order.
#[derive(Clone, Debug)]
pub struct Block {
    pub number: u64,
    pub transactions: Vec<Transaction>,
}

/// A transaction that calls a router, with its position in the block.
#[derive(Clone, Copy, Debug)]
pub struct SwapCandidate {
    pub position: usize,
    pub sender: Address,
    pub hash: TxHash,
}

/// A detected front-run, victim and back-run, in block order.
#[derive(Clone, Copy, Debug)]
pub struct Sandwich {
    pub front: SwapCandidate,
    pub victim: SwapCandidate,
    pub back: SwapCandidate,
}

/// The record of one detected sandwich, addresses and hashes as text.
#[derive(Clone, Debug, PartialEq, Eq)]
pub struct MevEvent {
    pub block_number: u64,
    pub bot_address: String,
    pub victim_address: String,
    pub tx_front: String,
    pub tx_victim: String,
    pub tx_back: String,
}

pub struct MevEventView {
    pub block_number: u64,
    pub bot_address: Seq<char>,
    pub victim_address: Seq<char>,
    pub tx_front: Seq<char>,
    pub tx_victim: Seq<char>,
    pub tx_back: Seq<char>,
}

impl View for MevEvent {
    type V = MevEventView;

    open spec fn view(&self) -> MevEventView {
        MevEventView {
            block_number: self.block_number,
            bot_address: self.bot_address@,
            victim_address: self.victim_address@,
            tx_front: self.tx_front@,
            tx_victim: self.tx_victim@,
            tx_back: self.tx_back@,
        }
    }
}

/// Whether a transaction is addressed to a router.
pub open spec fn touches_router(t: Transaction, routers: Set<Seq<u8>>) -> bool {
    match t.recipient {
        Some(to) => routers.contains(to@),
        None => false,
    }
}

/// The candidates among the first `n` transactions, in block order.
pub open spec fn candidates_upto(txs: Seq<Transaction>, routers: Set<Seq<u8>>, n: nat) -> Seq<
    SwapCandidate,
>
    decreases n,
{
    if n == 0 {
        seq![]
    } else {
        let prev = candidates_upto(txs, routers, (n - 1) as nat);
        let t = txs[n - 1];
        if touches_router(t, routers) {
            prev.push(SwapCandidate { position: (n - 1) as usize, sender: t.sender, hash: t.hash })
        } else {
            prev
        }
    }
}

/// The router-touching transactions of a block, in block order.
pub open spec fn candidates_of(txs: Seq<Transaction>, routers: Set<Seq<u8>>) -> Seq<SwapCandidate> {
    candidates_upto(txs, routers, txs.len())
}

/// Candidates whose block positions strictly increase.
pub open spec fn positions_increase(c: Seq<SwapCandidate>) -> bool {
    forall|i: int, j: int| 0 <= i < j < c.len() ==> c[i].position < c[j].position
}

/// The window of three consecutive candidates starting at `k` is a sandwich:
/// one sender on both sides, another in the middle, and at most three block
/// positions from the first to the last.
pub open spec fn window_matches(c: Seq<SwapCandidate>, k: int) -> bool {
    &&& c[k].sender@ == c[k + 2].sender@
    &&& c[k + 1].sender@ != c[k].sender@
    &&& c[k + 2].position - c[k].position <= 3
}

/// The window starting at `k`, read as front, victim and back.
pub open spec fn window_at(c: Seq<SwapCandidate>, k: int) -> Sandwich {
    Sandwich { front: c[k], victim: c[k + 1], back: c[k + 2] }
}

/// The matching windows among those starting before `n`, in order.
pub open spec fn sandwiches_upto(c: Seq<SwapCandidate>, n: nat) -> Seq<Sandwich>
    decreases n,
{
    if n == 0 {
        seq![]
    } else {
        let prev = sandwiches_upto(c, (n - 1) as nat);
        if window_matches(c, n - 1) {
            prev.push(window_at(c, n - 1))
        } else {
            prev
        }
    }
}

/// Every matching window of the candidate sequence, in order, overlapping
/// ones included.
pub open spec fn sandwiches_of(c: Seq<SwapCandidate>) -> Seq<Sandwich> {
    if c.len() < 3 {
        seq![]
    } else {
        sandwiches_upto(c, (c.len() - 2) as nat)
    }
}

/// The record of a sandwich found in block `number`.
pub open spec fn event_of(number: u64, s: Sandwich) -> MevEventView {
    MevEventView {
        block_number: number,
        bot_address: checksum_text(s.front.sender@),
        victim_address: checksum_text(s.victim.sender@),
        tx_front: prefixed_lower_hex(s.front.hash@),
        tx_victim: prefixed_lower_hex(s.victim.hash@),
        tx_back: prefixed_lower_hex(s.back.hash@),
    }
}

/// `events` records the sandwiches `found` in block `number`, one for one
/// and in the same order.
pub open spec fn records(events: Seq<MevEvent>, number: u64, found: Seq<Sandwich>) -> bool {
    &&& events.len() == found.len()
    &&& forall|i: int| 0 <= i < events.len() ==> #[trigger] events[i]@ == event_of(number, found[i])
}

/// The sandwiches of a block under a router registry.
pub open spec fn block_sandwiches(block: Block, routers: Set<Seq<u8>>) -> Seq<Sandwich> {
    sandwiches_of(candidates_of(block.transactions@, routers))
}

/// The router-touching transactions of `txs`, in order, with their positions.
pub fn swap_candidates(txs: &Vec<Transaction>, routers: &RouterSet) -> (r: Vec<SwapCandidate>)
    ensures
        r@ == candidates_of(txs@, routers@),
{
    let mut r: Vec<SwapCandidate> = Vec::new();
    let mut i: usize = 0;
    while i < txs.len()
        invariant
            0 <= i <= txs@.len(),
            r@ == candidates_upto(txs@, routers@, i as nat),
        decreases txs@.len() - i,
    {
        let t = txs[i];
        match t.recipient {
            Some(to) => {
                if routers.is_router(&to) {
                    r.push(SwapCandidate { position: i, sender: t.sender, hash: t.hash });
                }
            },
            None => {},
        }
        i = i + 1;
    }
    r
}

/// Scans the candidates with a window of three and returns every match.
pub fn find_sandwiches(candidates: &Vec<SwapCandidate>) -> (r: Vec<Sandwich>)
    requires
        positions_increase(candidates@),
    ensures
        r@ == sandwiches_of(candidates@),
{
    let mut r: Vec<Sandwich> = Vec::new();
    if candidates.len() < 3 {
        return r;
    }
    let mut k: usize = 0;
    while k < candidates.len() - 2
        invariant
            candidates@.len() >= 3,
            positions_increase(candidates@),
            0 <= k <= candidates@.len() - 2,
            r@ == sandwiches_upto(candidates@, k as nat),
        decreases candidates@.len() - 2 - k,
    {
        let front = candidates[k];
        let victim = candidates[k + 1];
        let back = candidates[k + 2];
        if front.sender == back.sender && victim.sender != front.sender && back.position
            - front.position <= 3 {
            r.push(Sandwich { front, victim, back });
        }
        k = k + 1;
    }
    r
}

/// The record of a sandwich found in block `number`.
pub fn sandwich_event(number: u64, s: &Sandwich) -> (r: MevEvent)
    ensures
        r@ == event_of(number, *s),
{
    MevEvent {
        block_number: number,
        bot_address: s.front.sender.to_checksum_string(),
        victim_address: s.victim.sender.to_checksum_string(),
        tx_front: s.front.hash.to_hex_string(),
        tx_victim: s.victim.hash.to_hex_string(),
        tx_back: s.back.hash.to_hex_string(),
    }
}

/// Candidate positions follow block order and stay inside the block.
pub proof fn lemma_candidate_positions(txs: Seq<Transaction>, routers: Set<Seq<u8>>, n: nat)
    requires
        n <= txs.len() <= usize::MAX,
    ensures
        positions_increase(candidates_upto(txs, routers, n)),
        forall|i: int|
            0 <= i < candidates_upto(txs, routers, n).len() ==> #[trigger] candidates_upto(
                txs,
                routers,
                n,
            )[i].position < n,
    decreases n,
{
    if n > 0 {
        lemma_candidate_positions(txs, routers, (n - 1) as nat);
        let prev = candidates_upto(txs, routers, (n - 1) as nat);
        let cur = candidates_upto(txs, routers, n);
        if touches_router(txs[n - 1], routers) {
            assert(cur[prev.len() as int].position == n - 1);
            assert forall|i: int, j: int| 0 <= i < j < cur.len() implies cur[i].position
                < cur[j].position by {
                if j < prev.len() {
                    assert(cur[i] == prev[i] && cur[j] == prev[j]);
                } else {
                    assert(cur[i] == prev[i]);
                }
            }
        }
    }
}

/// Every sandwich in the block, recorded in order: the matcher over one
/// block's transactions.
pub fn process_block(block: &Block, routers: &RouterSet) -> (events: Vec<MevEvent>)
    ensures
        records(events@, block.number, block_sandwiches(*block, routers@)),
{
    let candidates = swap_candidates(&block.transactions, routers);
    let count: usize = block.transactions.len();
    proof {
        assert(block.transactions@.len() == count);
        lemma_candidate_positions(block.transactions@, routers@, block.transactions@.len());
    }
    let found = find_sandwiches(&candidates);
    let mut events: Vec<MevEvent> = Vec::new();
    let mut i: usize = 0;
    while i < found.len()
        invariant
            0 <= i <= found@.len(),
            found@ == block_sandwiches(*block, routers@),
            records(events@, block.number, found@.subrange(0, i as int)),
        decreases found@.len() - i,
    {
        let e = sandwich_event(block.number, &found[i]);
        events.push(e);
        i = i + 1;
    }
    assert(found@.subrange(0, i as int) =~= found@);
    events
}

} // verus!
