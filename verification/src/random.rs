//! Random choices, drawn from the thread-local generator of `rand`.

use crate::chain::PeerAddress;
use rand::seq::SliceRandom;
use vstd::prelude::*;

verus! {

/// `SliceRandom::shuffle` with `rand::thread_rng()`: reorders the addresses
/// by swapping pairs of them, so the same addresses are held afterwards, each
/// as often as before. Which order comes out is left open.
#[verifier::external_body]
pub(crate) fn shuffle_addresses(addrs: &mut Vec<PeerAddress>)
    ensures
        final(addrs)@.to_multiset() == old(addrs)@.to_multiset(),
{
    addrs.shuffle(&mut rand::thread_rng())
}

/// `SliceRandom::choose` with `rand::thread_rng()`: one of the addresses, or
/// `None` if there is none. Which one comes out is left open.
#[verifier::external_body]
pub(crate) fn pick_address(addrs: &Vec<PeerAddress>) -> (pick: Option<PeerAddress>)
    ensures
        addrs@.len() == 0 ==> pick is None,
        addrs@.len() > 0 ==> pick is Some && addrs@.contains(pick->0),
{
    addrs.choose(&mut rand::thread_rng()).copied()
}

} // verus!
