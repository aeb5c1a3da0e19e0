//! The peer table: which peers have completed the handshake, and the handle
//! through which each is written to.

use crate::chain::{magic_of, Network, PeerAddress};
use crate::codec::wire_encoding;
use crate::messages::{Outgoing, OutgoingView};
use crate::network::WriteHandle;
use vstd::prelude::*;

verus! {

/// Mathematical value of a write handle: its network and what it has queued.
pub struct Endpoint {
    pub network: Network,
    pub queue: Seq<OutgoingView>,
}

/// The table's handle on one peer.
#[derive(Debug)]
pub struct SendToPeer {
    pub write: WriteHandle,
}

impl View for SendToPeer {
    type V = Endpoint;

    open spec fn view(&self) -> Endpoint {
        Endpoint { network: self.write.network(), queue: self.write@ }
    }
}

impl SendToPeer {
    pub fn new(write: WriteHandle) -> (peer: SendToPeer)
        ensures
            peer.write == write,
    {
        SendToPeer { write }
    }
}

#[derive(Debug)]
struct Entry {
    addr: PeerAddress,
    send: SendToPeer,
}

/// The registry of live peers, keyed by address.
#[derive(Debug)]
pub struct Peer {
    entries: Vec<Entry>,
}

spec fn holds(entries: Seq<Entry>, addr: PeerAddress) -> bool {
    exists|i: int| 0 <= i < entries.len() && (#[trigger] entries[i]).addr == addr
}

spec fn position(entries: Seq<Entry>, addr: PeerAddress) -> int {
    choose|i: int| 0 <= i < entries.len() && (#[trigger] entries[i]).addr == addr
}

spec fn distinct(entries: Seq<Entry>) -> bool {
    forall|i: int, j: int|
        0 <= i < entries.len() && 0 <= j < entries.len() && i != j ==> (#[trigger] entries[i]).addr
            != (#[trigger] entries[j]).addr
}

spec fn addresses(entries: Seq<Entry>) -> Seq<PeerAddress> {
    entries.map_values(|e: Entry| e.addr)
}

spec fn as_map(entries: Seq<Entry>) -> Map<PeerAddress, Endpoint> {
    Map::new(|a: PeerAddress| holds(entries, a), |a: PeerAddress| entries[position(entries, a)].send@)
}

proof fn lemma_position(entries: Seq<Entry>, i: int)
    requires
        distinct(entries),
        0 <= i < entries.len(),
    ensures
        holds(entries, entries[i].addr),
        position(entries, entries[i].addr) == i,
        as_map(entries)[entries[i].addr] == entries[i].send@,
        addresses(entries).index_of(entries[i].addr) == i,
{
    assert(addresses(entries)[i] == entries[i].addr);
}

proof fn lemma_size(entries: Seq<Entry>)
    requires
        distinct(entries),
    ensures
        addresses(entries).no_duplicates(),
        addresses(entries).to_set() == as_map(entries).dom(),
        as_map(entries).dom().finite(),
        as_map(entries).len() == entries.len(),
{
    let keys = addresses(entries);
    assert forall|a: PeerAddress| keys.to_set().contains(a) == as_map(entries).dom().contains(
        a,
    ) by {
        if holds(entries, a) {
            let i = position(entries, a);
            assert(keys[i] == a);
        }
    }
    keys.unique_seq_to_set();
}

proof fn lemma_push(entries: Seq<Entry>, entry: Entry)
    requires
        distinct(entries),
        !holds(entries, entry.addr),
    ensures
        distinct(entries.push(entry)),
        as_map(entries.push(entry)) == as_map(entries).insert(entry.addr, entry.send@),
        addresses(entries.push(entry)) == addresses(entries).push(entry.addr),
{
    let after = entries.push(entry);
    assert forall|a: PeerAddress| holds(after, a) == (a == entry.addr || holds(entries, a)) by {
        if holds(entries, a) {
            assert(after[position(entries, a)].addr == a);
        }
        if a == entry.addr {
            assert(after[entries.len() as int].addr == a);
        }
    }
}

proof fn lemma_update(entries: Seq<Entry>, i: int, entry: Entry)
    requires
        distinct(entries),
        0 <= i < entries.len(),
        entries[i].addr == entry.addr,
    ensures
        distinct(entries.update(i, entry)),
        as_map(entries.update(i, entry)) == as_map(entries).insert(entry.addr, entry.send@),
        addresses(entries.update(i, entry)) == addresses(entries),
{
    let after = entries.update(i, entry);
    assert forall|a: PeerAddress| holds(after, a) == (a == entry.addr || holds(entries, a)) by {
        if holds(entries, a) {
            assert(after[position(entries, a)].addr == a);
        }
    }
}

proof fn lemma_remove(entries: Seq<Entry>, i: int)
    requires
        distinct(entries),
        0 <= i < entries.len(),
    ensures
        distinct(entries.remove(i)),
        as_map(entries.remove(i)) == as_map(entries).remove(entries[i].addr),
        addresses(entries.remove(i)) == addresses(entries).remove(i),
{
    let after = entries.remove(i);
    let addr = entries[i].addr;
    assert forall|a: PeerAddress| holds(after, a) == (a != addr && holds(entries, a)) by {
        if a != addr && holds(entries, a) {
            let k = position(entries, a);
            let k1 = if k < i { k } else { k - 1 };
            assert(after[k1].addr == a);
        }
    }
}

impl View for Peer {
    type V = Map<PeerAddress, Endpoint>;

    /// The registered peers, each with the value of its handle.
    closed spec fn view(&self) -> Map<PeerAddress, Endpoint> {
        as_map(self.entries@)
    }
}

impl Default for Peer {
    fn default() -> (table: Peer)
        ensures
            table@ == Map::<PeerAddress, Endpoint>::empty(),
            table.keys() == Seq::<PeerAddress>::empty(),
    {
        Peer::new()
    }
}

impl Peer {
    #[verifier::type_invariant]
    spec fn keyed(&self) -> bool {
        distinct(self.entries@)
    }

    /// The registered addresses in the order of their registration.
    pub closed spec fn keys(&self) -> Seq<PeerAddress> {
        addresses(self.entries@)
    }

    /// A table without peers.
    pub fn new() -> (table: Peer)
        ensures
            table@ == Map::<PeerAddress, Endpoint>::empty(),
            table.keys() == Seq::<PeerAddress>::empty(),
    {
        Peer { entries: Vec::new() }
    }

    /// The number of registered peers.
    pub fn len(&self) -> (n: usize)
        ensures
            n == self@.len(),
            n == self.keys().len(),
            self@.dom().finite(),
    {
        proof {
            use_type_invariant(self);
            lemma_size(self.entries@);
        }
        self.entries.len()
    }

    fn take_entries(&mut self) -> (entries: Vec<Entry>)
        ensures
            entries@ == old(self).entries@,
            distinct(entries@),
    {
        let mut taken = Peer { entries: Vec::new() };
        core::mem::swap(self, &mut taken);
        proof {
            use_type_invariant(&taken);
        }
        taken.entries
    }

    fn find(&self, addr: PeerAddress) -> (at: Option<usize>)
        ensures
            distinct(self.entries@),
            at is Some <==> holds(self.entries@, addr),
            at matches Some(i) ==> i < self.entries@.len() && self.entries@[i as int].addr == addr,
    {
        proof {
            use_type_invariant(self);
        }
        let mut i: usize = 0;
        while i < self.entries.len()
            invariant
                i <= self.entries@.len(),
                distinct(self.entries@),
                forall|j: int| 0 <= j < i ==> (#[trigger] self.entries@[j]).addr != addr,
            decreases self.entries@.len() - i,
        {
            if self.entries[i].addr == addr {
                return Some(i);
            }
            i += 1;
        }
        None
    }

    /// Whether `addr` is registered.
    pub fn contains(&self, addr: PeerAddress) -> (found: bool)
        ensures
            found == self@.dom().contains(addr),
    {
        self.find(addr).is_some()
    }

    /// The registered addresses in the order of their registration: every
    /// registered address once, and no other.
    pub fn addresses(&self) -> (keys: Vec<PeerAddress>)
        ensures
            keys@ == self.keys(),
            keys@.no_duplicates(),
            keys@.to_set() == self@.dom(),
            keys@.len() == self@.len(),
    {
        let mut keys: Vec<PeerAddress> = Vec::new();
        let mut i: usize = 0;
        while i < self.entries.len()
            invariant
                i <= self.entries@.len(),
                keys@ == addresses(self.entries@).take(i as int),
            decreases self.entries@.len() - i,
        {
            keys.push(self.entries[i].addr);
            i += 1;
        }
        proof {
            assert(addresses(self.entries@).take(i as int) =~= addresses(self.entries@));
            use_type_invariant(self);
            lemma_size(self.entries@);
        }
        keys
    }

    /// Registers `addr` with the handle `send`. A handle registered for the
    /// same address before is replaced and returned; a new address is listed
    /// last.
    pub fn insert(&mut self, addr: PeerAddress, send: SendToPeer) -> (replaced: Option<SendToPeer>)
        ensures
            final(self)@ == old(self)@.insert(addr, send@),
            replaced is Some <==> old(self)@.dom().contains(addr),
            replaced matches Some(was) ==> was@ == old(self)@[addr],
            final(self).keys() == if old(self)@.dom().contains(addr) {
                old(self).keys()
            } else {
                old(self).keys().push(addr)
            },
    {
        let ghost before = self.entries@;
        let entry = Entry { addr, send };
        match self.find(addr) {
            Some(i) => {
                proof {
                    lemma_position(before, i as int);
                    lemma_update(before, i as int, entry);
                }
                let mut entries = self.take_entries();
                let was = entries.remove(i);
                entries.insert(i, entry);
                assert(entries@ =~= before.update(i as int, entry));
                self.entries = entries;
                Some(was.send)
            },
            None => {
                proof {
                    lemma_push(before, entry);
                }
                let mut entries = self.take_entries();
                entries.push(entry);
                self.entries = entries;
                None
            },
        }
    }

    /// Removes the entry of `addr`, if there is one, and returns its handle.
    /// No other entry changes, and the others keep their order.
    pub fn remove(&mut self, addr: PeerAddress) -> (removed: Option<SendToPeer>)
        ensures
            final(self)@ == old(self)@.remove(addr),
            removed is Some <==> old(self)@.dom().contains(addr),
            removed matches Some(was) ==> was@ == old(self)@[addr],
            final(self).keys() == if old(self)@.dom().contains(addr) {
                old(self).keys().remove(old(self).keys().index_of(addr))
            } else {
                old(self).keys()
            },
    {
        let ghost before = self.entries@;
        match self.find(addr) {
            Some(i) => {
                proof {
                    lemma_position(before, i as int);
                    lemma_remove(before, i as int);
                }
                let mut entries = self.take_entries();
                let was = entries.remove(i);
                self.entries = entries;
                Some(was.send)
            },
            None => None,
        }
    }

    /// Queues `message` on the handle registered for `addr`. Returns whether
    /// there is such a handle; if not, nothing changes.
    pub fn write_to(&mut self, addr: PeerAddress, message: Outgoing) -> (written: bool)
        ensures
            written == old(self)@.dom().contains(addr),
            final(self).keys() == old(self).keys(),
            written ==> final(self)@ == old(self)@.insert(
                addr,
                Endpoint {
                    network: old(self)@[addr].network,
                    queue: old(self)@[addr].queue.push(message@),
                },
            ),
            !written ==> final(self)@ == old(self)@,
    {
        let ghost before = self.entries@;
        match self.find(addr) {
            Some(i) => {
                let mut entries = self.take_entries();
                let mut entry = entries.remove(i);
                entry.send.write.write_message(message);
                proof {
                    lemma_position(before, i as int);
                    lemma_update(before, i as int, entry);
                }
                entries.insert(i, entry);
                assert(entries@ =~= before.update(i as int, entry));
                self.entries = entries;
                true
            },
            None => false,
        }
    }

    /// Takes the oldest message queued on the handle registered for `addr`
    /// and encodes it as a frame; `None` if there is no such handle or
    /// nothing is queued on it.
    pub fn next_frame(&mut self, addr: PeerAddress) -> (frame: Option<Vec<u8>>)
        ensures
            final(self).keys() == old(self).keys(),
            frame is Some <==> old(self)@.dom().contains(addr) && old(self)@[addr].queue.len() > 0,
            frame matches Some(bytes) ==> bytes@ == wire_encoding(
                magic_of(old(self)@[addr].network),
                old(self)@[addr].queue[0],
            ) && final(self)@ == old(self)@.insert(
                addr,
                Endpoint {
                    network: old(self)@[addr].network,
                    queue: old(self)@[addr].queue.skip(1),
                },
            ),
            frame is None ==> final(self)@ == old(self)@,
    {
        let ghost before = self.entries@;
        match self.find(addr) {
            Some(i) => {
                proof {
                    lemma_position(before, i as int);
                }
                if self.entries[i].send.write.pending() == 0 {
                    return None;
                }
                let mut entries = self.take_entries();
                let mut entry = entries.remove(i);
                let frame = entry.send.write.next_frame();
                proof {
                    lemma_update(before, i as int, entry);
                }
                entries.insert(i, entry);
                assert(entries@ =~= before.update(i as int, entry));
                self.entries = entries;
                frame
            },
            None => None,
        }
    }
}

} // verus!
