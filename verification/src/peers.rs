//! Selection of candidate peers for a broadcast run.
//!
//! The address source hands over peer records as plain
//! `(endpoint, service bits)` pairs; only peers that advertise the
//! witness-relay service bit are worth contacting, and their endpoints,
//! in the order given, form the address pool of a run.

use vstd::prelude::*;

verus! {

/// Service bit advertised by peers that relay segregated-witness
/// transactions.
pub const NODE_WITNESS: u64 = 8;

/// True when `services` advertises every bit of `flags`.
pub open spec fn has_flags(services: u64, flags: u64) -> bool {
    services & flags == flags
}

/// The endpoints of the records that advertise `NODE_WITNESS`, in the
/// order they appear.
pub open spec fn candidates_spec(peers: Seq<(String, u64)>) -> Seq<String>
    decreases peers.len(),
{
    if peers.len() == 0 {
        Seq::empty()
    } else {
        let rest = candidates_spec(peers.drop_last());
        if has_flags(peers.last().1, NODE_WITNESS) {
            rest.push(peers.last().0)
        } else {
            rest
        }
    }
}

/// Keeps, in order, the endpoints of the peers that advertise the
/// witness-relay service bit; those are the candidates a broadcast run
/// may contact.
pub fn select_candidates(peers: &Vec<(String, u64)>) -> (r: Vec<String>)
    ensures
        r@ == candidates_spec(peers@),
{
    let mut r: Vec<String> = Vec::new();
    let mut i: usize = 0;
    while i < peers.len()
        invariant
            i <= peers@.len(),
            r@ == candidates_spec(peers@.take(i as int)),
        decreases peers@.len() - i,
    {
        proof {
            assert(peers@.take(i + 1).drop_last() =~= peers@.take(i as int));
            assert(peers@.take(i + 1).last() == peers@[i as int]);
        }
        if peers[i].1 & NODE_WITNESS == NODE_WITNESS {
            r.push(peers[i].0.clone());
        }
        i = i + 1;
    }
    proof {
        assert(peers@.take(peers@.len() as int) =~= peers@);
    }
    r
}

} // verus!
