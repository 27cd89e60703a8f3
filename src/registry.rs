//! The registry of decentralized-exchange routers whose calls count as swaps.

use crate::primitives::{address_digits, hex_decode, is_address_text, Address};
use vstd::prelude::*;

verus! {

/// The Uniswap V2 router.
pub const UNISWAP_V2_ROUTER: &'static str = "0x7a250d5630B4cF539739dF2C5dAcb4c659F2488D";

/// The Uniswap universal router.
pub const UNIVERSAL_ROUTER: &'static str = "0x3fC91A3afd70395Cd496C647d5a6CC9D4B2b7FAD";

/// An immutable set of router addresses; membership is by exact equality.
pub struct RouterSet {
    routers: Vec<Address>,
}

/// The set of the views of a sequence of addresses.
pub open spec fn address_set(s: Seq<Address>) -> Set<Seq<u8>> {
    Set::new(|a: Seq<u8>| exists|i: int| 0 <= i < s.len() && #[trigger] s[i]@ == a)
}

/// The set of addresses that a sequence of texts spells.
pub open spec fn decoded_set(texts: Seq<&str>) -> Set<Seq<u8>> {
    Set::new(
        |a: Seq<u8>|
            exists|i: int| 0 <= i < texts.len() && hex_decode(address_digits(#[trigger] texts[i]@)) == a,
    )
}

/// The index of the first malformed text, if any.
pub open spec fn first_malformed(texts: Seq<&str>, i: int) -> bool {
    &&& 0 <= i < texts.len()
    &&& !is_address_text(texts[i]@)
    &&& forall|j: int| 0 <= j < i ==> is_address_text(#[trigger] texts[j]@)
}

impl View for RouterSet {
    type V = Set<Seq<u8>>;

    closed spec fn view(&self) -> Set<Seq<u8>> {
        address_set(self.routers@)
    }
}

impl RouterSet {
    /// A registry holding exactly the given addresses.
    pub fn new(routers: Vec<Address>) -> (r: RouterSet)
        ensures
            r@ == address_set(routers@),
    {
        RouterSet { routers }
    }

    /// Parses each text as an address. Fails with the index of the first
    /// malformed text; otherwise the registry holds every parsed address.
    pub fn from_texts(texts: &[&str]) -> (r: Result<RouterSet, usize>)
        ensures
            r is Ok <==> forall|i: int| 0 <= i < texts@.len() ==> is_address_text(#[trigger] texts@[i]@),
            r matches Ok(set) ==> set@ == decoded_set(texts@),
            r matches Err(i) ==> first_malformed(texts@, i as int),
    {
        let mut routers: Vec<Address> = Vec::new();
        let mut i: usize = 0;
        while i < texts.len()
            invariant
                0 <= i <= texts@.len(),
                routers@.len() == i,
                forall|j: int| 0 <= j < i ==> is_address_text(#[trigger] texts@[j]@),
                forall|j: int|
                    0 <= j < i ==> #[trigger] routers@[j]@ == hex_decode(address_digits(texts@[j]@)),
            decreases texts@.len() - i,
        {
            match Address::parse(texts[i]) {
                Some(a) => {
                    routers.push(a);
                },
                None => {
                    return Err(i);
                },
            }
            i = i + 1;
        }
        let set = RouterSet { routers };
        assert(set@ =~= decoded_set(texts@)) by {
            assert forall|a: Seq<u8>| #[trigger] set@.contains(a) implies decoded_set(texts@).contains(a) by {
                let k = choose|k: int| 0 <= k < set.routers@.len() && set.routers@[k]@ == a;
                assert(hex_decode(address_digits(texts@[k]@)) == a);
            }
            assert forall|a: Seq<u8>| #[trigger] decoded_set(texts@).contains(a) implies set@.contains(a) by {
                let k = choose|k: int| 0 <= k < texts@.len() && hex_decode(address_digits(texts@[k]@)) == a;
                assert(set.routers@[k]@ == a);
            }
        }
        Ok(set)
    }

    /// The two routers of the reference deployment.
    pub fn known() -> (r: Result<RouterSet, usize>)
        ensures
            r is Ok,
            r matches Ok(set) ==> set@ == decoded_set(seq![UNISWAP_V2_ROUTER, UNIVERSAL_ROUTER]),
    {
        let texts: [&str; 2] = [UNISWAP_V2_ROUTER, UNIVERSAL_ROUTER];
        proof {
            reveal_strlit("0x7a250d5630B4cF539739dF2C5dAcb4c659F2488D");
            reveal_strlit("0x3fC91A3afd70395Cd496C647d5a6CC9D4B2b7FAD");
        }
        let r = RouterSet::from_texts(&texts);
        assert(texts@ =~= seq![UNISWAP_V2_ROUTER, UNIVERSAL_ROUTER]);
        r
    }

    /// Whether the address is one of the registered routers.
    pub fn is_router(&self, a: &Address) -> (r: bool)
        ensures
            r == self@.contains(a@),
    {
        let mut i: usize = 0;
        while i < self.routers.len()
            invariant
                0 <= i <= self.routers@.len(),
                forall|j: int| 0 <= j < i ==> #[trigger] self.routers@[j]@ != a@,
            decreases self.routers@.len() - i,
        {
            if self.routers[i] == *a {
                return true;
            }
            i = i + 1;
        }
        false
    }
}

} // verus!
