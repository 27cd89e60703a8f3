//! Properties of the matcher, proved from the contract of `process_block`
//! and the definitions it is stated over.

use crate::matcher::{
    Block, MevEvent, Sandwich, SwapCandidate, block_sandwiches, candidates_of,
    event_of, positions_increase, records, sandwiches_of, sandwiches_upto, window_at,
    window_matches, lemma_candidate_positions,
};
use vstd::prelude::*;

verus! {

/// The start of each matching window among the first `n`, in order.
pub open spec fn match_starts(c: Seq<SwapCandidate>, n: nat) -> Seq<int>
    decreases n,
{
    if n == 0 {
        seq![]
    } else {
        let prev = match_starts(c, (n - 1) as nat);
        if window_matches(c, n - 1) {
            prev.push(n - 1)
        } else {
            prev
        }
    }
}

/// The `i`-th sandwich among the first `n` windows is the window that starts
/// at the `i`-th matching start.
proof fn lemma_sandwiches_upto_starts(c: Seq<SwapCandidate>, n: nat)
    ensures
        sandwiches_upto(c, n).len() == match_starts(c, n).len(),
        forall|i: int|
            #![trigger match_starts(c, n)[i]]
            0 <= i < match_starts(c, n).len() ==> {
                &&& 0 <= match_starts(c, n)[i] < n
                &&& window_matches(c, match_starts(c, n)[i])
                &&& sandwiches_upto(c, n)[i] == window_at(c, match_starts(c, n)[i])
            },
        forall|k: int|
            #![trigger window_matches(c, k)]
            0 <= k < n && window_matches(c, k) ==> match_starts(c, n).contains(k),
    decreases n,
{
    if n > 0 {
        let m = (n - 1) as nat;
        lemma_sandwiches_upto_starts(c, m);
        let prev = match_starts(c, m);
        let cur = match_starts(c, n);
        assert forall|i: int| #![trigger cur[i]] 0 <= i < prev.len() implies cur[i] == prev[i]
            && sandwiches_upto(c, n)[i] == sandwiches_upto(c, m)[i] by {}
        assert forall|k: int| #![trigger window_matches(c, k)]
            0 <= k < n && window_matches(c, k) implies cur.contains(k) by {
            if k < m {
                let i = choose|i: int| 0 <= i < prev.len() && prev[i] == k;
                assert(cur[i] == k);
            } else {
                assert(cur[prev.len() as int] == k);
            }
        }
    }
}

/// The start of each matching window of the candidate sequence, in order.
pub open spec fn sandwich_starts(c: Seq<SwapCandidate>) -> Seq<int> {
    if c.len() < 3 {
        seq![]
    } else {
        match_starts(c, (c.len() - 2) as nat)
    }
}

/// The sandwiches of a candidate sequence are exactly its matching windows,
/// in order.
proof fn lemma_sandwiches_starts(c: Seq<SwapCandidate>)
    ensures
        sandwiches_of(c).len() == sandwich_starts(c).len(),
        forall|i: int|
            #![trigger sandwich_starts(c)[i]]
            0 <= i < sandwich_starts(c).len() ==> {
                &&& 0 <= sandwich_starts(c)[i]
                &&& sandwich_starts(c)[i] + 2 < c.len()
                &&& window_matches(c, sandwich_starts(c)[i])
                &&& sandwiches_of(c)[i] == window_at(c, sandwich_starts(c)[i])
            },
        forall|k: int|
            #![trigger window_matches(c, k)]
            0 <= k && k + 2 < c.len() && window_matches(c, k) ==> sandwich_starts(c).contains(k),
{
    if c.len() >= 3 {
        let n = (c.len() - 2) as nat;
        lemma_sandwiches_upto_starts(c, n);
        assert(sandwiches_of(c) == sandwiches_upto(c, n));
    }
}

/// A block with fewer than three router-touching transactions yields no
/// event.
pub proof fn lemma_few_swaps_no_events(block: Block, routers: Set<Seq<u8>>, events: Seq<MevEvent>)
    requires
        candidates_of(block.transactions@, routers).len() < 3,
        records(events, block.number, block_sandwiches(block, routers)),
    ensures
        events.len() == 0,
{
}

/// `e` is the record, in block `number`, of the matching window that starts
/// at `k`, whose front and back sit at different block positions.
pub open spec fn records_window(c: Seq<SwapCandidate>, number: u64, e: MevEvent, k: int) -> bool {
    &&& 0 <= k && k + 2 < c.len()
    &&& window_matches(c, k)
    &&& e@ == event_of(number, window_at(c, k))
    &&& c[k].position != c[k + 2].position
}

/// Events that record the sandwiches of increasing candidates are exactly
/// the records of their matching windows, each spanning distinct positions.
proof fn lemma_records_are_windows(c: Seq<SwapCandidate>, number: u64, events: Seq<MevEvent>)
    requires
        positions_increase(c),
        records(events, number, sandwiches_of(c)),
    ensures
        forall|i: int|
            0 <= i < events.len() ==> #[trigger] records_window(
                c,
                number,
                events[i],
                sandwich_starts(c)[i],
            ),
        forall|k: int|
            #![trigger window_matches(c, k)]
            0 <= k && k + 2 < c.len() && window_matches(c, k) ==> exists|i: int|
                #![trigger events[i]]
                0 <= i < events.len() && events[i]@ == event_of(number, window_at(c, k)),
{
    let s = sandwiches_of(c);
    let st = sandwich_starts(c);
    lemma_sandwiches_starts(c);
    assert forall|i: int| 0 <= i < events.len() implies #[trigger] records_window(
        c,
        number,
        events[i],
        st[i],
    ) by {
        let k = st[i];
        assert(s[i] == window_at(c, k));
        assert(events[i]@ == event_of(number, s[i]));
        assert(c[k].position < c[k + 2].position);
    }
    assert forall|k: int| #![trigger window_matches(c, k)]
        0 <= k && k + 2 < c.len() && window_matches(c, k) implies exists|i: int|
        #![trigger events[i]]
        0 <= i < events.len() && events[i]@ == event_of(number, window_at(c, k)) by {
        let i = choose|i: int| 0 <= i < st.len() && st[i] == k;
        assert(events[i]@ == event_of(number, s[i]));
    }
}

/// The `i`-th event is the record of the `i`-th matching window of three
/// consecutive candidates, with the bot, victim and hashes taken from the
/// first, second and third, whose front and back sit at different block
/// positions; and every matching window is recorded.
pub proof fn lemma_events_are_matching_windows(
    block: Block,
    routers: Set<Seq<u8>>,
    events: Seq<MevEvent>,
)
    requires
        block.transactions@.len() <= usize::MAX,
        records(events, block.number, block_sandwiches(block, routers)),
    ensures
        forall|i: int|
            0 <= i < events.len() ==> #[trigger] records_window(
                candidates_of(block.transactions@, routers),
                block.number,
                events[i],
                sandwich_starts(candidates_of(block.transactions@, routers))[i],
            ),
        forall|k: int|
            #![trigger window_matches(candidates_of(block.transactions@, routers), k)]
            0 <= k && k + 2 < candidates_of(block.transactions@, routers).len() && window_matches(
                candidates_of(block.transactions@, routers),
                k,
            ) ==> exists|i: int|
                #![trigger events[i]]
                0 <= i < events.len() && events[i]@ == event_of(
                    block.number,
                    window_at(candidates_of(block.transactions@, routers), k),
                ),
{
    let c = candidates_of(block.transactions@, routers);
    lemma_candidate_positions(block.transactions@, routers, block.transactions@.len());
    lemma_records_are_windows(c, block.number, events);
    assert forall|k: int| #![trigger window_matches(c, k)]
        0 <= k && k + 2 < c.len() && window_matches(c, k) implies exists|i: int|
        #![trigger events[i]]
        0 <= i < events.len() && events[i]@ == event_of(block.number, window_at(c, k)) by {}
}

/// The distance bound is strict: a window whose back-run lies more than
/// three block positions after its front-run never matches, and no reported
/// sandwich spans more than three positions.
pub proof fn lemma_distance_bound_strict(block: Block, routers: Set<Seq<u8>>, k: int)
    requires
        0 <= k,
        k + 2 < candidates_of(block.transactions@, routers).len(),
        candidates_of(block.transactions@, routers)[k + 2].position
            - candidates_of(block.transactions@, routers)[k].position > 3,
    ensures
        !window_matches(candidates_of(block.transactions@, routers), k),
        forall|i: int|
            0 <= i < block_sandwiches(block, routers).len() ==> #[trigger] block_sandwiches(
                block,
                routers,
            )[i].back.position - block_sandwiches(block, routers)[i].front.position <= 3,
{
    let c = candidates_of(block.transactions@, routers);
    let s = block_sandwiches(block, routers);
    lemma_sandwiches_starts(c);
    assert forall|i: int| 0 <= i < s.len() implies #[trigger] s[i].back.position
        - s[i].front.position <= 3 by {
        let j = sandwich_starts(c)[i];
        assert(s[i] == window_at(c, j));
    }
}

/// No self-sandwich: a window whose first two candidates share a sender
/// never matches, and in every reported sandwich the front-run and back-run
/// share a sender that differs from the victim's.
pub proof fn lemma_no_self_sandwich(block: Block, routers: Set<Seq<u8>>)
    ensures
        forall|k: int|
            0 <= k && k + 2 < candidates_of(block.transactions@, routers).len()
                && candidates_of(block.transactions@, routers)[k].sender@ == candidates_of(
                block.transactions@,
                routers,
            )[k + 1].sender@ ==> !#[trigger] window_matches(
                candidates_of(block.transactions@, routers),
                k,
            ),
        forall|i: int|
            0 <= i < block_sandwiches(block, routers).len() ==> {
                let s: Sandwich = #[trigger] block_sandwiches(block, routers)[i];
                s.front.sender@ == s.back.sender@ && s.victim.sender@ != s.front.sender@
            },
{
    let c = candidates_of(block.transactions@, routers);
    let s = block_sandwiches(block, routers);
    lemma_sandwiches_starts(c);
    assert forall|i: int| 0 <= i < s.len() implies {
        let w: Sandwich = #[trigger] s[i];
        w.front.sender@ == w.back.sender@ && w.victim.sender@ != w.front.sender@
    } by {
        let j = sandwich_starts(c)[i];
        assert(s[i] == window_at(c, j));
    }
}

/// Matching the same block twice gives the same events in the same order.
pub proof fn lemma_matcher_deterministic(
    block: Block,
    routers: Set<Seq<u8>>,
    first: Seq<MevEvent>,
    second: Seq<MevEvent>,
)
    requires
        records(first, block.number, block_sandwiches(block, routers)),
        records(second, block.number, block_sandwiches(block, routers)),
    ensures
        first.len() == second.len(),
        forall|i: int| 0 <= i < first.len() ==> #[trigger] first[i]@ == second[i]@,
{
}

} // verus!
