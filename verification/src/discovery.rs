//! Peer discovery: the addresses seen so far and the queue of candidates
//! that have not been tried yet.

use crate::chain::{port_of, Network, PeerAddress};
use crate::random::shuffle_addresses;
use vstd::prelude::*;

verus! {

/// The endpoints of `ips` on the port of `network`, in the same order.
pub open spec fn endpoints(ips: Seq<u128>, network: Network) -> Seq<PeerAddress> {
    ips.map_values(|ip: u128| PeerAddress { ip, port: port_of(network) })
}

/// The addresses of `resolved` that are new: not in `known`, and each only
/// where it occurs first. Their order is that of `resolved`.
pub open spec fn fresh(known: Set<PeerAddress>, resolved: Seq<PeerAddress>) -> Seq<PeerAddress>
    decreases resolved.len(),
{
    if resolved.len() == 0 {
        seq![]
    } else {
        let earlier = fresh(known, resolved.drop_last());
        let addr = resolved.last();
        if known.contains(addr) || earlier.contains(addr) {
            earlier
        } else {
            earlier.push(addr)
        }
    }
}

/// `fresh` keeps exactly the addresses that are not known, each once.
pub proof fn lemma_fresh(known: Set<PeerAddress>, resolved: Seq<PeerAddress>)
    ensures
        fresh(known, resolved).no_duplicates(),
        forall|a: PeerAddress| #[trigger]
            fresh(known, resolved).contains(a) <==> resolved.contains(a) && !known.contains(a),
    decreases resolved.len(),
{
    if resolved.len() > 0 {
        let init = resolved.drop_last();
        let earlier = fresh(known, init);
        let addr = resolved.last();
        lemma_fresh(known, init);
        assert forall|a: PeerAddress| #[trigger]
            fresh(known, resolved).contains(a) <==> resolved.contains(a) && !known.contains(a) by {
            if resolved.contains(a) {
                let i = choose|i: int| 0 <= i < resolved.len() && resolved[i] == a;
                if i < init.len() {
                    assert(init[i] == a);
                }
            }
            if !known.contains(addr) && !earlier.contains(addr) {
                assert(earlier.push(addr)[earlier.len() as int] == addr);
                if earlier.contains(a) {
                    let i = choose|i: int| 0 <= i < earlier.len() && earlier[i] == a;
                    assert(earlier.push(addr)[i] == a);
                }
            }
        }
    }
}

fn listed(addrs: &Vec<PeerAddress>, addr: PeerAddress) -> (found: bool)
    ensures
        found == addrs@.contains(addr),
{
    let mut i: usize = 0;
    while i < addrs.len()
        invariant
            i <= addrs@.len(),
            forall|j: int| 0 <= j < i ==> addrs@[j] != addr,
        decreases addrs@.len() - i,
    {
        if addrs[i] == addr {
            return true;
        }
        i += 1;
    }
    false
}

/// The addresses discovered in this run and the candidates among them that
/// no connection has been attempted to.
#[derive(Debug)]
pub struct AddressBook {
    network: Network,
    queue: Vec<PeerAddress>,
    seen: Vec<PeerAddress>,
}

impl AddressBook {
    /// No candidate is queued twice, every candidate has been seen, and
    /// every seen address is on the port of the book's network.
    #[verifier::type_invariant]
    pub closed spec fn sound(&self) -> bool {
        &&& self.queue@.no_duplicates()
        &&& forall|a: PeerAddress| self.queue@.contains(a) ==> self.seen@.contains(a)
        &&& forall|a: PeerAddress| self.seen@.contains(a) ==> a.port == port_of(self.network)
    }

    /// The network whose seeds fill this book.
    pub closed spec fn spec_network(&self) -> Network {
        self.network
    }

    /// The candidates; the next one to be tried stands last.
    pub closed spec fn candidates(&self) -> Seq<PeerAddress> {
        self.queue@
    }

    /// Every address discovered so far.
    pub closed spec fn known(&self) -> Set<PeerAddress> {
        self.seen@.to_set()
    }

    /// What the invariant says in terms of the public view.
    pub proof fn lemma_sound(self)
        requires
            self.sound(),
        ensures
            self.candidates().no_duplicates(),
            forall|a: PeerAddress| self.candidates().contains(a) ==> self.known().contains(a),
            forall|a: PeerAddress| self.known().contains(a) ==> a.port == port_of(self.network()),
    {
    }

    /// An empty book for `network`.
    pub fn new(network: Network) -> (book: AddressBook)
        ensures
            book.sound(),
            book.network() == network,
            book.candidates() == Seq::<PeerAddress>::empty(),
            book.known() == Set::<PeerAddress>::empty(),
    {
        AddressBook { network, queue: Vec::new(), seen: Vec::new() }
    }

    /// The network whose seeds fill this book.
    #[verifier::when_used_as_spec(spec_network)]
    pub fn network(&self) -> (network: Network)
        ensures
            network == self.network(),
    {
        self.network
    }

    /// How many candidates are queued.
    pub fn len(&self) -> (n: usize)
        ensures
            n == self.candidates().len(),
    {
        self.queue.len()
    }

    fn take_parts(&mut self) -> (parts: (Vec<PeerAddress>, Vec<PeerAddress>))
        ensures
            final(self).network == old(self).network,
            parts.0@ == old(self).queue@,
            parts.1@ == old(self).seen@,
            old(self).sound(),
            final(self).queue@.len() == 0,
            final(self).seen@.len() == 0,
    {
        let mut taken = AddressBook { network: self.network, queue: Vec::new(), seen: Vec::new() };
        core::mem::swap(self, &mut taken);
        proof {
            use_type_invariant(&taken);
        }
        (taken.queue, taken.seen)
    }

    /// Takes the next candidate off the queue.
    pub fn pop(&mut self) -> (next: Option<PeerAddress>)
        ensures
            final(self).sound(),
            final(self).network() == old(self).network(),
            final(self).known() == old(self).known(),
            old(self).candidates().len() == 0 ==> next is None && final(self).candidates() == old(
                self,
            ).candidates(),
            old(self).candidates().len() > 0 ==> next == Some(old(self).candidates().last())
                && final(self).candidates() == old(self).candidates().drop_last(),
    {
        let (mut queue, seen) = self.take_parts();
        let next = queue.pop();
        *self = AddressBook { network: self.network, queue, seen };
        next
    }

    /// Takes in the addresses one seed resolved to: each on the port of the
    /// book's network, and each that has not been seen before joins the
    /// candidates and the seen addresses.
    pub fn absorb(&mut self, ips: &Vec<u128>)
        ensures
            final(self).sound(),
            final(self).network() == old(self).network(),
            final(self).candidates() == old(self).candidates() + fresh(
                old(self).known(),
                endpoints(ips@, old(self).network()),
            ),
            final(self).known() == old(self).known().union(
                endpoints(ips@, old(self).network()).to_set(),
            ),
    {
        let (mut queue, mut seen) = self.take_parts();
        let network = self.network;
        let port = network.port();
        let ghost known = seen@.to_set();
        let ghost resolved = endpoints(ips@, network);
        let ghost queued = queue@;
        let mut i: usize = 0;
        while i < ips.len()
            invariant
                i <= ips@.len(),
                port == port_of(network),
                resolved == endpoints(ips@, network),
                queue@ == queued + fresh(known, resolved.take(i as int)),
                seen@.to_set() == known.union(resolved.take(i as int).to_set()),
                queue@.no_duplicates(),
                forall|a: PeerAddress| queue@.contains(a) ==> seen@.contains(a),
                forall|a: PeerAddress| seen@.contains(a) ==> a.port == port_of(network),
            decreases ips@.len() - i,
        {
            let addr = PeerAddress { ip: ips[i], port };
            let ghost upto = resolved.take(i as int);
            let ghost next = resolved.take(i + 1);
            let ghost was_seen = seen@;
            proof {
                assert(next.drop_last() =~= upto);
                assert(next.last() == addr);
                lemma_fresh(known, upto);
                assert(was_seen.contains(addr) == was_seen.to_set().contains(addr));
            }
            if !listed(&seen, addr) {
                seen.push(addr);
                queue.push(addr);
                proof {
                    assert(seen@.to_set() =~= was_seen.to_set().insert(addr)) by {
                        assert forall|a: PeerAddress| seen@.to_set().contains(a)
                            == was_seen.to_set().insert(addr).contains(a) by {
                            if was_seen.contains(a) {
                                let k = choose|k: int| 0 <= k < was_seen.len() && was_seen[k] == a;
                                assert(seen@[k] == a);
                            }
                            assert(seen@[was_seen.len() as int] == addr);
                        }
                    }
                    assert forall|a: PeerAddress| queue@.contains(a) implies seen@.contains(a) by {
                        assert(seen@.to_set().contains(a));
                    }
                    assert forall|a: PeerAddress| seen@.contains(a) implies a.port == port_of(
                        network,
                    ) by {
                        assert(seen@.to_set().contains(a));
                    }
                }
            }
            i += 1;
        }
        assert(resolved.take(i as int) =~= resolved);
        *self = AddressBook { network: self.network, queue, seen };
    }

    /// Puts the candidates in a random order.
    pub fn shuffle(&mut self)
        ensures
            final(self).sound(),
            final(self).network() == old(self).network(),
            final(self).known() == old(self).known(),
            final(self).candidates().to_multiset() == old(self).candidates().to_multiset(),
    {
        let (mut queue, seen) = self.take_parts();
        let ghost before = queue@;
        shuffle_addresses(&mut queue);
        proof {
            lemma_same_members(before, queue@);
        }
        *self = AddressBook { network: self.network, queue, seen };
    }
}

/// Two sequences with the same multiset hold the same addresses, and if one
/// holds none twice, neither does the other.
pub proof fn lemma_same_members(a: Seq<PeerAddress>, b: Seq<PeerAddress>)
    requires
        a.to_multiset() == b.to_multiset(),
    ensures
        a.len() == b.len(),
        forall|x: PeerAddress| a.contains(x) <==> b.contains(x),
        a.no_duplicates() ==> b.no_duplicates(),
{
    broadcast use vstd::seq_lib::group_to_multiset_ensures;

    assert(a.len() == a.to_multiset().len());
    assert forall|x: PeerAddress| a.contains(x) <==> b.contains(x) by {
        assert(a.contains(x) <==> a.to_multiset().count(x) > 0);
    }
    if a.no_duplicates() {
        a.lemma_multiset_has_no_duplicates();
        b.lemma_multiset_has_no_duplicates_conv();
    }
}

} // verus!
