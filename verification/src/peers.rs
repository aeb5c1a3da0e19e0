//! The peer manager: keeps the peer table near its target size and
//! announces the transaction to one random peer per tick.

use crate::chain::{Network, PeerAddress};
use crate::discovery::{endpoints, fresh, AddressBook};
use crate::messages::{Outgoing, OutgoingView};
use crate::random::pick_address;
use crate::table::Endpoint;
pub use crate::table::{Peer, SendToPeer};
use crate::transaction::Transaction;
use vstd::prelude::*;

verus! {

/// The broadcast loop announces only while the table holds more peers than
/// this.
pub const BROADCAST_THRESHOLD: usize = 8;

/// Seconds between two ticks of the broadcast loop.
pub const BROADCAST_INTERVAL_SECS: u64 = 8;

/// Seconds the maintenance loop rests after a pass that needed no discovery.
pub const MAINTENANCE_PAUSE_SECS: u64 = 1;

/// Seconds after which an attempt to connect is given up.
pub const CONNECT_TIMEOUT_SECS: u64 = 3;

/// What the maintenance loop does after it has started the connections of a
/// pass.
#[derive(Clone, Copy, Debug, PartialEq, Eq, Structural)]
pub enum FollowUp {
    /// The candidates ran out: resolve the seeds, then start the next pass
    /// at once.
    Discover,
    /// Rest for [`MAINTENANCE_PAUSE_SECS`], then start the next pass.
    Sleep,
}

/// The outcome of one maintenance pass.
#[derive(Debug)]
pub struct Plan {
    /// The addresses to connect to, each in a task of its own.
    pub connect: Vec<PeerAddress>,
    /// What follows.
    pub next: FollowUp,
}

/// How many connections are missing when `live` peers are registered and
/// `target` are wanted.
pub open spec fn needed(target: usize, live: nat) -> nat {
    if target > live {
        (target - live) as nat
    } else {
        0
    }
}

/// How many candidates a pass takes: one per missing connection, as far as
/// the candidates reach.
pub open spec fn taken(candidates: Seq<PeerAddress>, slots: nat) -> nat {
    if slots <= candidates.len() {
        slots
    } else {
        candidates.len()
    }
}

/// The candidates a pass takes, in the order it takes them: from the end of
/// the queue backwards.
pub open spec fn planned(candidates: Seq<PeerAddress>, slots: nat) -> Seq<PeerAddress> {
    Seq::new(taken(candidates, slots), |i: int| candidates[candidates.len() - 1 - i])
}

/// Candidates and seen addresses after the lookups of one discovery pass
/// were taken in, seed by seed; a seed whose lookup failed (`None`) is
/// skipped.
pub open spec fn gathered(
    candidates: Seq<PeerAddress>,
    known: Set<PeerAddress>,
    lookups: Seq<Option<Vec<u128>>>,
    network: Network,
) -> (Seq<PeerAddress>, Set<PeerAddress>)
    decreases lookups.len(),
{
    if lookups.len() == 0 {
        (candidates, known)
    } else {
        let (queue, seen) = gathered(candidates, known, lookups.drop_last(), network);
        match lookups.last() {
            Some(ips) => {
                let resolved = endpoints(ips@, network);
                (queue + fresh(seen, resolved), seen.union(resolved.to_set()))
            },
            None => (queue, seen),
        }
    }
}

/// The announcement of the transaction with id `tx.id()`.
pub open spec fn announcement(tx: Transaction) -> OutgoingView {
    OutgoingView::Inv(seq![tx.id()])
}

/// The table after `message` was queued for the peer `target`.
pub open spec fn queued_for(
    table: Map<PeerAddress, Endpoint>,
    target: PeerAddress,
    message: OutgoingView,
) -> Map<PeerAddress, Endpoint> {
    table.insert(
        target,
        Endpoint { network: table[target].network, queue: table[target].queue.push(message) },
    )
}

/// The coordinator: owns the transaction, the network identity, the peer
/// table and the address book.
#[derive(Debug)]
pub struct PeerManager {
    /// The number of peers the table is kept near.
    pub max_outbound: usize,
    /// The peer table.
    pub peer: Peer,
    /// The transaction to broadcast.
    pub tx: Transaction,
    /// The network joined.
    pub network: Network,
    /// Discovered addresses and candidates.
    pub book: AddressBook,
    /// Set once a peer has advertised the transaction.
    pub completed: bool,
}

impl PeerManager {
    /// A manager with an empty table and an empty address book.
    pub fn new(max_outbound: usize, tx: Transaction, network: Network) -> (manager: PeerManager)
        ensures
            manager.max_outbound == max_outbound,
            manager.tx == tx,
            manager.network == network,
            manager.peer@ == Map::<PeerAddress, Endpoint>::empty(),
            manager.book.network() == network,
            manager.book.candidates() == Seq::<PeerAddress>::empty(),
            manager.book.known() == Set::<PeerAddress>::empty(),
            !manager.completed,
    {
        PeerManager {
            max_outbound,
            peer: Peer::new(),
            tx,
            network,
            book: AddressBook::new(network),
            completed: false,
        }
    }

    /// One pass of the maintenance loop.
    ///
    /// The pass has one slot for each peer the table is short of its target.
    /// Each slot takes the next candidate off the queue; the address is to
    /// be connected to. When the queue is empty before every slot is filled,
    /// the pass ends there and discovery follows; otherwise a pause follows.
    /// A pass never takes more addresses than the table is short of.
    pub fn maintain_peers(&mut self) -> (plan: Plan)
        ensures
            plan.connect@ == planned(
                old(self).book.candidates(),
                needed(old(self).max_outbound, old(self).peer@.len()),
            ),
            final(self).book.candidates() == old(self).book.candidates().take(
                old(self).book.candidates().len() - plan.connect@.len(),
            ),
            plan.next == if old(self).book.candidates().len() < needed(
                old(self).max_outbound,
                old(self).peer@.len(),
            ) {
                FollowUp::Discover
            } else {
                FollowUp::Sleep
            },
            plan.connect@.len() <= needed(old(self).max_outbound, old(self).peer@.len()),
            final(self).book.known() == old(self).book.known(),
            final(self).book.network() == old(self).book.network(),
            final(self).book.sound(),
            final(self).peer == old(self).peer,
            final(self).tx == old(self).tx,
            final(self).network == old(self).network,
            final(self).max_outbound == old(self).max_outbound,
            final(self).completed == old(self).completed,
    {
        proof {
            use_type_invariant(&self.book);
        }
        let slots = self.max_outbound.saturating_sub(self.peer.len());
        let ghost candidates = self.book.candidates();
        let mut connect: Vec<PeerAddress> = Vec::new();
        let mut next = FollowUp::Sleep;
        let mut slot: usize = 0;
        while slot < slots
            invariant_except_break
                next == FollowUp::Sleep,
                slot <= slots,
            invariant
                slot <= candidates.len(),
                connect@ == planned(candidates, slot as nat),
                self.book.candidates() == candidates.take(candidates.len() - slot),
                self.book.known() == old(self).book.known(),
                self.book.network() == old(self).book.network(),
                self.book.sound(),
                self.peer == old(self).peer,
                self.tx == old(self).tx,
                self.network == old(self).network,
                self.max_outbound == old(self).max_outbound,
                self.completed == old(self).completed,
            ensures
                next == FollowUp::Discover ==> slot == candidates.len() && slot < slots,
                next == FollowUp::Sleep ==> slot == slots,
            decreases slots - slot,
        {
            match self.book.pop() {
                Some(addr) => {
                    connect.push(addr);
                    slot += 1;
                },
                None => {
                    next = FollowUp::Discover;
                    break ;
                },
            }
        }
        Plan { connect, next }
    }

    /// Ends a discovery pass: takes in what each seed resolved to, in seed
    /// order, then shuffles the candidates.
    ///
    /// `lookups` holds one entry per seed: the addresses it resolved to, or
    /// `None` where its resolution failed. A failed seed is skipped.
    pub fn discovered(&mut self, lookups: &Vec<Option<Vec<u128>>>)
        ensures
            final(self).book.candidates().to_multiset() == gathered(
                old(self).book.candidates(),
                old(self).book.known(),
                lookups@,
                old(self).book.network(),
            ).0.to_multiset(),
            final(self).book.known() == gathered(
                old(self).book.candidates(),
                old(self).book.known(),
                lookups@,
                old(self).book.network(),
            ).1,
            final(self).book.network() == old(self).book.network(),
            final(self).book.sound(),
            final(self).peer == old(self).peer,
            final(self).tx == old(self).tx,
            final(self).network == old(self).network,
            final(self).max_outbound == old(self).max_outbound,
            final(self).completed == old(self).completed,
    {
        proof {
            use_type_invariant(&self.book);
        }
        let ghost candidates = self.book.candidates();
        let ghost known = self.book.known();
        let ghost network = self.book.network();
        let mut i: usize = 0;
        while i < lookups.len()
            invariant
                i <= lookups@.len(),
                self.book.candidates() == gathered(
                    candidates,
                    known,
                    lookups@.take(i as int),
                    network,
                ).0,
                self.book.known() == gathered(candidates, known, lookups@.take(i as int), network).1,
                self.book.network() == network,
                self.book.sound(),
                self.peer == old(self).peer,
                self.tx == old(self).tx,
                self.network == old(self).network,
                self.max_outbound == old(self).max_outbound,
                self.completed == old(self).completed,
            decreases lookups@.len() - i,
        {
            proof {
                assert(lookups@.take(i + 1).drop_last() =~= lookups@.take(i as int));
            }
            match &lookups[i] {
                Some(ips) => {
                    self.book.absorb(ips);
                },
                None => {},
            }
            i += 1;
        }
        assert(lookups@.take(i as int) =~= lookups@);
        self.book.shuffle();
    }

    /// The broadcast tick, given the peer that chance picked.
    ///
    /// Queues one announcement of the transaction for `target` if the table
    /// holds more than [`BROADCAST_THRESHOLD`] peers and `target` is one of
    /// them. Otherwise nothing is sent. Returns whether it was.
    pub fn announce(&mut self, target: PeerAddress) -> (sent: bool)
        ensures
            sent == (old(self).peer@.len() > BROADCAST_THRESHOLD && old(self).peer@.dom().contains(
                target,
            )),
            sent ==> final(self).peer@ == queued_for(
                old(self).peer@,
                target,
                announcement(old(self).tx),
            ),
            !sent ==> final(self).peer@ == old(self).peer@,
            final(self).peer.keys() == old(self).peer.keys(),
            final(self).tx == old(self).tx,
            final(self).network == old(self).network,
            final(self).max_outbound == old(self).max_outbound,
            final(self).completed == old(self).completed,
            final(self).book == old(self).book,
    {
        if self.peer.len() > BROADCAST_THRESHOLD {
            let mut ids = Vec::new();
            ids.push(self.tx.txid());
            let message = Outgoing::Inv(ids);
            self.peer.write_to(target, message)
        } else {
            false
        }
    }

    /// One tick of the broadcast loop.
    ///
    /// While the table holds more than [`BROADCAST_THRESHOLD`] peers, one of
    /// them is picked at random and sent one announcement of the
    /// transaction; the peer is returned. Otherwise the tick is skipped.
    pub fn broadcast_tx(&mut self) -> (target: Option<PeerAddress>)
        ensures
            target is Some <==> old(self).peer@.len() > BROADCAST_THRESHOLD,
            target matches Some(addr) ==> old(self).peer@.dom().contains(addr) && final(self).peer@
                == queued_for(old(self).peer@, addr, announcement(old(self).tx)),
            target is None ==> final(self).peer@ == old(self).peer@,
            final(self).peer.keys() == old(self).peer.keys(),
            final(self).tx == old(self).tx,
            final(self).network == old(self).network,
            final(self).max_outbound == old(self).max_outbound,
            final(self).completed == old(self).completed,
            final(self).book == old(self).book,
    {
        if self.peer.len() > BROADCAST_THRESHOLD {
            let keys = self.peer.addresses();
            match pick_address(&keys) {
                Some(addr) => {
                    self.announce(addr);
                    Some(addr)
                },
                None => None,
            }
        } else {
            None
        }
    }

    /// Removes the entry of a peer whose connection has ended. Every other
    /// entry stays as it is. Returns whether there was an entry.
    pub fn disconnected(&mut self, addr: PeerAddress) -> (removed: bool)
        ensures
            removed == old(self).peer@.dom().contains(addr),
            final(self).peer@ == old(self).peer@.remove(addr),
            final(self).peer.keys() == if removed {
                old(self).peer.keys().remove(old(self).peer.keys().index_of(addr))
            } else {
                old(self).peer.keys()
            },
            final(self).tx == old(self).tx,
            final(self).network == old(self).network,
            final(self).max_outbound == old(self).max_outbound,
            final(self).completed == old(self).completed,
            final(self).book == old(self).book,
    {
        self.peer.remove(addr).is_some()
    }
}

/// A maintenance pass never asks for more connections than the table is
/// short of: if every connection it starts ends up registered, the table
/// holds no more peers than the larger of its target and its size before.
pub proof fn lemma_pass_keeps_target(target: usize, live: nat, candidates: Seq<PeerAddress>)
    ensures
        planned(candidates, needed(target, live)).len() <= needed(target, live),
        live <= target ==> live + planned(candidates, needed(target, live)).len() <= target,
        live >= target ==> planned(candidates, needed(target, live)).len() == 0,
{
}

/// The addresses of one pass are all different, each was a candidate, and
/// none of them is a candidate afterwards.
pub proof fn lemma_planned_leave_queue(candidates: Seq<PeerAddress>, slots: nat)
    requires
        candidates.no_duplicates(),
    ensures
        planned(candidates, slots).no_duplicates(),
        forall|a: PeerAddress| #[trigger]
            planned(candidates, slots).contains(a) ==> candidates.contains(a) && !candidates.take(
                candidates.len() - taken(candidates, slots),
            ).contains(a),
{
}

proof fn lemma_joined(a: Seq<PeerAddress>, b: Seq<PeerAddress>)
    ensures
        forall|x: PeerAddress| #[trigger] (a + b).contains(x) <==> a.contains(x) || b.contains(x),
        a.no_duplicates() && b.no_duplicates() && (forall|x: PeerAddress|
            a.contains(x) ==> !b.contains(x)) ==> (a + b).no_duplicates(),
{
    assert forall|x: PeerAddress| #[trigger] (a + b).contains(x) <==> a.contains(x) || b.contains(
        x,
    ) by {
        if a.contains(x) {
            let i = choose|i: int| 0 <= i < a.len() && a[i] == x;
            assert((a + b)[i] == x);
        }
        if b.contains(x) {
            let i = choose|i: int| 0 <= i < b.len() && b[i] == x;
            assert((a + b)[a.len() + i] == x);
        }
    }
    if a.no_duplicates() && b.no_duplicates() && (forall|x: PeerAddress|
        a.contains(x) ==> !b.contains(x)) {
        assert forall|i: int, j: int| 0 <= i < (a + b).len() && 0 <= j < (a + b).len() && i
            != j implies (a + b)[i] != (a + b)[j] by {
            if i < a.len() && j >= a.len() {
                assert(a.contains(a[i]));
            }
            if j < a.len() && i >= a.len() {
                assert(a.contains(a[j]));
            }
        }
    }
}

/// Discovery never queues an address a second time. Where no candidate is
/// queued twice and every candidate has been seen, the same holds after any
/// discovery pass; every address seen before is still seen; and an address
/// that was seen before and is no longer a candidate, because a connection
/// to it was started, does not become a candidate again.
pub proof fn lemma_no_second_attempt(
    candidates: Seq<PeerAddress>,
    known: Set<PeerAddress>,
    lookups: Seq<Option<Vec<u128>>>,
    network: Network,
)
    requires
        candidates.no_duplicates(),
        forall|a: PeerAddress| candidates.contains(a) ==> known.contains(a),
    ensures
        gathered(candidates, known, lookups, network).0.no_duplicates(),
        forall|a: PeerAddress| #[trigger]
            gathered(candidates, known, lookups, network).0.contains(a) ==> gathered(
                candidates,
                known,
                lookups,
                network,
            ).1.contains(a),
        forall|a: PeerAddress|
            known.contains(a) ==> #[trigger] gathered(candidates, known, lookups, network).1.contains(
                a,
            ),
        forall|a: PeerAddress|
            known.contains(a) && !candidates.contains(a) ==> !(#[trigger] gathered(
                candidates,
                known,
                lookups,
                network,
            ).0.contains(a)),
    decreases lookups.len(),
{
    if lookups.len() > 0 {
        lemma_no_second_attempt(candidates, known, lookups.drop_last(), network);
        let (queue, seen) = gathered(candidates, known, lookups.drop_last(), network);
        match lookups.last() {
            Some(ips) => {
                let resolved = endpoints(ips@, network);
                let added = fresh(seen, resolved);
                crate::discovery::lemma_fresh(seen, resolved);
                lemma_joined(queue, added);
            },
            None => {},
        }
    }
}

/// A tick announces to one peer only: the peer picked gets exactly one
/// message more, and every other entry of the table is what it was.
pub proof fn lemma_one_announcement(
    table: Map<PeerAddress, Endpoint>,
    target: PeerAddress,
    message: OutgoingView,
)
    requires
        table.dom().contains(target),
    ensures
        queued_for(table, target, message).dom() == table.dom(),
        queued_for(table, target, message)[target].queue == table[target].queue.push(message),
        queued_for(table, target, message)[target].queue.len() == table[target].queue.len() + 1,
        forall|other: PeerAddress|
            other != target && table.dom().contains(other) ==> #[trigger] queued_for(
                table,
                target,
                message,
            )[other] == table[other],
{
}

/// The end of one connection removes one entry: the peer's own. Every other
/// peer stays registered with its handle as it was.
pub proof fn lemma_close_removes_one(table: Map<PeerAddress, Endpoint>, addr: PeerAddress)
    ensures
        !table.remove(addr).dom().contains(addr),
        forall|other: PeerAddress|
            other != addr ==> (#[trigger] table.remove(addr).dom().contains(other)
                == table.dom().contains(other)),
        forall|other: PeerAddress|
            other != addr && table.dom().contains(other) ==> #[trigger] table.remove(addr)[other]
                == table[other],
        table.dom().finite() && table.dom().contains(addr) ==> table.remove(addr).len() + 1
            == table.len(),
{
}

} // verus!
