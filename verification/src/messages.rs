//! Protocol messages and the per-connection handshake state machine.

use crate::chain::PeerAddress;
use crate::network::{ConnectionStatus, WriteHandle};
use crate::peers::PeerManager;
use crate::table::{Endpoint, SendToPeer};
use crate::transaction::{Transaction, TxId};
use vstd::prelude::*;

verus! {

/// One entry of an inventory list, as far as this node reads it.
#[derive(Clone, Copy, Debug)]
pub enum Inventory {
    /// A transaction, named by its id.
    Transaction(TxId),
    /// Any other kind of object.
    Other,
}

impl PartialEq for Inventory {
    fn eq(&self, other: &Inventory) -> (r: bool) {
        match (self, other) {
            (Inventory::Transaction(a), Inventory::Transaction(b)) => a == b,
            (Inventory::Other, Inventory::Other) => true,
            _ => false,
        }
    }
}

impl Eq for Inventory {

}

impl vstd::std_specs::cmp::PartialEqSpecImpl for Inventory {
    open spec fn obeys_eq_spec() -> bool {
        true
    }

    open spec fn eq_spec(&self, other: &Inventory) -> bool {
        *self == *other
    }
}

/// A message received from a peer, reduced to what the handler reads.
#[derive(Debug, PartialEq, Eq)]
pub enum Incoming {
    /// The peer's handshake initiation.
    Version,
    /// An inventory advertisement.
    Inv(Vec<Inventory>),
    /// A request for the listed objects.
    GetData(Vec<Inventory>),
    /// Any other message kind.
    Other,
}

/// Mathematical value of an [`Incoming`].
pub enum IncomingView {
    Version,
    Inv(Seq<Inventory>),
    GetData(Seq<Inventory>),
    Other,
}

impl View for Incoming {
    type V = IncomingView;

    open spec fn view(&self) -> IncomingView {
        match self {
            Incoming::Version => IncomingView::Version,
            Incoming::Inv(items) => IncomingView::Inv(items@),
            Incoming::GetData(items) => IncomingView::GetData(items@),
            Incoming::Other => IncomingView::Other,
        }
    }
}

/// The views of a sequence of received messages.
pub open spec fn incoming_views(messages: Seq<Incoming>) -> Seq<IncomingView> {
    messages.map_values(|m: Incoming| m@)
}

/// A network address as a handshake carries it.
#[derive(Clone, Copy, Debug, PartialEq, Eq, Structural)]
pub struct NetAddress {
    pub services: u64,
    pub ip: u128,
    pub port: u16,
}

/// The fields of a handshake initiation.
#[derive(Debug, PartialEq, Eq)]
pub struct VersionMessage {
    pub version: u32,
    pub services: u64,
    pub timestamp: i64,
    pub receiver: NetAddress,
    pub sender: NetAddress,
    pub nonce: u64,
    pub user_agent: String,
    pub start_height: i32,
    pub relay: bool,
}

/// Mathematical value of a [`VersionMessage`].
pub struct VersionView {
    pub version: u32,
    pub services: u64,
    pub timestamp: i64,
    pub receiver: NetAddress,
    pub sender: NetAddress,
    pub nonce: u64,
    pub user_agent: Seq<char>,
    pub start_height: i32,
    pub relay: bool,
}

impl View for VersionMessage {
    type V = VersionView;

    open spec fn view(&self) -> VersionView {
        VersionView {
            version: self.version,
            services: self.services,
            timestamp: self.timestamp,
            receiver: self.receiver,
            sender: self.sender,
            nonce: self.nonce,
            user_agent: self.user_agent@,
            start_height: self.start_height,
            relay: self.relay,
        }
    }
}

/// A message this node sends.
#[derive(Debug, PartialEq, Eq)]
pub enum Outgoing {
    /// Handshake initiation.
    Version(VersionMessage),
    /// Handshake acknowledgement.
    Verack,
    /// Advertisement of transactions by id.
    Inv(Vec<TxId>),
    /// A full transaction.
    Tx(Transaction),
}

/// Mathematical value of an [`Outgoing`].
pub enum OutgoingView {
    Version(VersionView),
    Verack,
    Inv(Seq<TxId>),
    Tx(Seq<u8>),
}

impl View for Outgoing {
    type V = OutgoingView;

    open spec fn view(&self) -> OutgoingView {
        match self {
            Outgoing::Version(v) => OutgoingView::Version(v@),
            Outgoing::Verack => OutgoingView::Verack,
            Outgoing::Inv(ids) => OutgoingView::Inv(ids@),
            Outgoing::Tx(tx) => OutgoingView::Tx(tx@),
        }
    }
}

/// Protocol version announced in the handshake.
pub const PROTOCOL_VERSION: u32 = 70016;

/// The IPv4-mapped form of `0.0.0.0`, which stands for this node itself.
pub const UNSPECIFIED_IP: u128 = 0xffff_0000_0000;

/// The handshake initiation sent to the peer at `addr`.
pub open spec fn version_for(addr: PeerAddress) -> VersionView {
    VersionView {
        version: PROTOCOL_VERSION,
        services: 0,
        timestamp: 0,
        receiver: NetAddress { services: 0, ip: addr.ip, port: addr.port },
        sender: NetAddress { services: 0, ip: UNSPECIFIED_IP, port: 0 },
        nonce: 0,
        user_agent: "/Satoshi:23.0.0/"@,
        start_height: 0,
        relay: true,
    }
}

/// Builds the handshake initiation for the peer at `addr`: no services, zero
/// timestamp, nonce and height, the peer as receiver and the unspecified
/// address as sender.
pub fn version_msg(addr: PeerAddress) -> (msg: VersionMessage)
    ensures
        msg@ == version_for(addr),
{
    VersionMessage {
        version: PROTOCOL_VERSION,
        services: 0,
        timestamp: 0,
        receiver: NetAddress { services: 0, ip: addr.ip, port: addr.port },
        sender: NetAddress { services: 0, ip: UNSPECIFIED_IP, port: 0 },
        nonce: 0,
        user_agent: "/Satoshi:23.0.0/".to_owned(),
        start_height: 0,
        relay: true,
    }
}

/// The inventory list that names exactly the transaction `id`.
pub open spec fn inventory_of(id: TxId) -> Seq<Inventory> {
    seq![Inventory::Transaction(id)]
}

/// The single-item inventory naming `tx`.
pub fn inv_message(tx: &Transaction) -> (items: Vec<Inventory>)
    ensures
        items@ == inventory_of(tx.id()),
{
    let mut items: Vec<Inventory> = Vec::new();
    items.push(Inventory::Transaction(tx.txid()));
    items
}

/// Whether `items` lists the transaction `id`.
pub fn lists_transaction(items: &Vec<Inventory>, id: &TxId) -> (found: bool)
    ensures
        found == items@.contains(Inventory::Transaction(*id)),
{
    let wanted = Inventory::Transaction(*id);
    let mut i: usize = 0;
    while i < items.len()
        invariant
            i <= items.len(),
            wanted == Inventory::Transaction(*id),
            forall|j: int| 0 <= j < i ==> items@[j] != wanted,
        decreases items.len() - i,
    {
        if items[i] == wanted {
            return true;
        }
        i += 1;
    }
    false
}

/// Whether `items` is exactly the single-item inventory naming `id`.
pub fn requests_exactly(items: &Vec<Inventory>, id: &TxId) -> (exact: bool)
    ensures
        exact == (items@ == inventory_of(*id)),
{
    if items.len() != 1 {
        return false;
    }
    let exact = items[0] == Inventory::Transaction(*id);
    proof {
        if exact {
            assert(items@ =~= inventory_of(*id));
        }
    }
    exact
}

/// Where a connection stands in the protocol.
#[derive(Clone, Copy, Debug, PartialEq, Eq, Structural)]
pub enum HandlerState {
    /// Connected; the peer's handshake initiation has not arrived.
    AwaitingVersion,
    /// The peer's handshake initiation has arrived.
    Active,
    /// The receive loop has ended.
    Done,
}

/// What one received message causes.
pub struct Step {
    /// State after the message.
    pub next: HandlerState,
    /// Replies to queue on the connection, in order.
    pub replies: Seq<OutgoingView>,
    /// Whether the peer is to be entered in the peer table.
    pub register: bool,
    /// Whether the broadcast is seen to have succeeded.
    pub success: bool,
}

/// The protocol's transition function for the target transaction with id
/// `id` and bytes `raw`.
///
/// A finished handler ignores everything. Otherwise a handshake initiation
/// is acknowledged and, the first time, registers the peer; an advertisement
/// that lists the target declares success and ends the handler; a data
/// request ends the handler, answered with the transaction if and only if it
/// asks for exactly the target; any other message changes nothing.
pub open spec fn react(state: HandlerState, msg: IncomingView, id: TxId, raw: Seq<u8>) -> Step {
    if state == HandlerState::Done {
        Step { next: state, replies: seq![], register: false, success: false }
    } else {
        match msg {
            IncomingView::Version => Step {
                next: HandlerState::Active,
                replies: seq![OutgoingView::Verack],
                register: state == HandlerState::AwaitingVersion,
                success: false,
            },
            IncomingView::Inv(items) => if items.contains(Inventory::Transaction(id)) {
                Step { next: HandlerState::Done, replies: seq![], register: false, success: true }
            } else {
                Step { next: state, replies: seq![], register: false, success: false }
            },
            IncomingView::GetData(items) => Step {
                next: HandlerState::Done,
                replies: if items == inventory_of(id) {
                    seq![OutgoingView::Tx(raw)]
                } else {
                    seq![]
                },
                register: false,
                success: false,
            },
            IncomingView::Other => Step {
                next: state,
                replies: seq![],
                register: false,
                success: false,
            },
        }
    }
}

/// What the handler decided for one message.
#[derive(Debug)]
pub struct Reaction {
    pub next: HandlerState,
    pub replies: Vec<Outgoing>,
    pub register: bool,
    pub success: bool,
}

/// The views of a sequence of outgoing messages.
pub open spec fn views(messages: Seq<Outgoing>) -> Seq<OutgoingView> {
    messages.map_values(|m: Outgoing| m@)
}

impl View for Reaction {
    type V = Step;

    open spec fn view(&self) -> Step {
        Step {
            next: self.next,
            replies: views(self.replies@),
            register: self.register,
            success: self.success,
        }
    }
}

/// Decides what one received message causes on a connection in `state` that
/// broadcasts `tx`.
pub fn handle_message(state: HandlerState, msg: &Incoming, tx: &Transaction) -> (r: Reaction)
    ensures
        r@ == react(state, msg@, tx.id(), tx@),
{
    let mut replies: Vec<Outgoing> = Vec::new();
    let mut next = state;
    let mut register = false;
    let mut success = false;
    if state != HandlerState::Done {
        match msg {
            Incoming::Version => {
                replies.push(Outgoing::Verack);
                register = state == HandlerState::AwaitingVersion;
                next = HandlerState::Active;
            },
            Incoming::Inv(items) => {
                if lists_transaction(items, &tx.txid()) {
                    success = true;
                    next = HandlerState::Done;
                }
            },
            Incoming::GetData(items) => {
                if requests_exactly(items, &tx.txid()) {
                    replies.push(Outgoing::Tx(tx.clone()));
                }
                next = HandlerState::Done;
            },
            Incoming::Other => {},
        }
    }
    let r = Reaction { next, replies, register, success };
    assert(r@.replies =~= react(state, msg@, tx.id(), tx@).replies);
    r
}

/// What a run of received messages causes, taken together.
pub struct Trace {
    /// State after the last message.
    pub state: HandlerState,
    /// All replies, in the order they were caused.
    pub replies: Seq<OutgoingView>,
    /// Whether some message registered the peer.
    pub registered: bool,
    /// Whether some message declared success.
    pub success: bool,
}

/// Feeds `messages` to the handler one after the other, in arrival order,
/// starting in `state`.
pub open spec fn run(state: HandlerState, messages: Seq<IncomingView>, id: TxId, raw: Seq<u8>) -> Trace
    decreases messages.len(),
{
    if messages.len() == 0 {
        Trace { state, replies: seq![], registered: false, success: false }
    } else {
        let before = run(state, messages.drop_last(), id, raw);
        let step = react(before.state, messages.last(), id, raw);
        Trace {
            state: step.next,
            replies: before.replies + step.replies,
            registered: before.registered || step.register,
            success: before.success || step.success,
        }
    }
}

/// Whether a connection is over: its handler is done, or its receiving side
/// no longer takes bytes. Whichever comes first ends the connection.
pub fn connection_ended(state: HandlerState, status: ConnectionStatus) -> (ended: bool)
    ensures
        ended == (state == HandlerState::Done || status != ConnectionStatus::Open),
{
    state == HandlerState::Done || status != ConnectionStatus::Open
}

/// Starts the protocol on a connection that was just established: queues the
/// handshake initiation for the peer at `addr`.
pub fn open_handshake(addr: PeerAddress, write: &mut WriteHandle) -> (state: HandlerState)
    ensures
        state == HandlerState::AwaitingVersion,
        final(write)@ == old(write)@.push(OutgoingView::Version(version_for(addr))),
        final(write).network() == old(write).network(),
{
    write.write_message(Outgoing::Version(version_msg(addr)));
    HandlerState::AwaitingVersion
}

/// Handles the messages received from the peer at `addr`, in arrival order,
/// on a connection whose handler is in `state`.
///
/// The replies are queued on `write` in the order they were caused. If the
/// peer's handshake initiation is among the messages and is the first on this
/// connection, the peer is entered in the table with a handle of its own that
/// has nothing queued. If an advertisement lists the transaction, the manager
/// is marked completed. Returns the handler's new state.
pub fn handle_messages(
    addr: PeerAddress,
    peer_manager: &mut PeerManager,
    write: &mut WriteHandle,
    state: HandlerState,
    messages: &Vec<Incoming>,
) -> (next: HandlerState)
    ensures
        next == run(
            state,
            incoming_views(messages@),
            old(peer_manager).tx.id(),
            old(peer_manager).tx@,
        ).state,
        final(write)@ == old(write)@ + run(
            state,
            incoming_views(messages@),
            old(peer_manager).tx.id(),
            old(peer_manager).tx@,
        ).replies,
        final(write).network() == old(write).network(),
        final(peer_manager).peer@ == if run(
            state,
            incoming_views(messages@),
            old(peer_manager).tx.id(),
            old(peer_manager).tx@,
        ).registered {
            old(peer_manager).peer@.insert(
                addr,
                Endpoint { network: old(peer_manager).network, queue: seq![] },
            )
        } else {
            old(peer_manager).peer@
        },
        final(peer_manager).peer.keys() == if run(
            state,
            incoming_views(messages@),
            old(peer_manager).tx.id(),
            old(peer_manager).tx@,
        ).registered && !old(peer_manager).peer@.dom().contains(addr) {
            old(peer_manager).peer.keys().push(addr)
        } else {
            old(peer_manager).peer.keys()
        },
        final(peer_manager).completed == (old(peer_manager).completed || run(
            state,
            incoming_views(messages@),
            old(peer_manager).tx.id(),
            old(peer_manager).tx@,
        ).success),
        final(peer_manager).tx == old(peer_manager).tx,
        final(peer_manager).network == old(peer_manager).network,
        final(peer_manager).max_outbound == old(peer_manager).max_outbound,
        final(peer_manager).book == old(peer_manager).book,
{
    let ghost id = peer_manager.tx.id();
    let ghost raw = peer_manager.tx@;
    let ghost all = incoming_views(messages@);
    let ghost table = peer_manager.peer@;
    let ghost keys = peer_manager.peer.keys();
    let ghost entry = Endpoint { network: peer_manager.network, queue: seq![] };
    let mut current = state;
    let mut i: usize = 0;
    while i < messages.len()
        invariant
            i <= messages@.len(),
            all == incoming_views(messages@),
            id == peer_manager.tx.id(),
            raw == peer_manager.tx@,
            entry == (Endpoint { network: peer_manager.network, queue: seq![] }),
            current == run(state, all.take(i as int), id, raw).state,
            write@ == old(write)@ + run(state, all.take(i as int), id, raw).replies,
            write.network() == old(write).network(),
            peer_manager.peer@ == if run(state, all.take(i as int), id, raw).registered {
                table.insert(addr, entry)
            } else {
                table
            },
            peer_manager.peer.keys() == if run(state, all.take(i as int), id, raw).registered
                && !table.dom().contains(addr) {
                keys.push(addr)
            } else {
                keys
            },
            peer_manager.completed == (old(peer_manager).completed || run(
                state,
                all.take(i as int),
                id,
                raw,
            ).success),
            peer_manager.tx == old(peer_manager).tx,
            peer_manager.network == old(peer_manager).network,
            peer_manager.max_outbound == old(peer_manager).max_outbound,
            peer_manager.book == old(peer_manager).book,
        decreases messages@.len() - i,
    {
        let reaction = handle_message(current, &messages[i], &peer_manager.tx);
        proof {
            assert(all.take(i + 1).drop_last() =~= all.take(i as int));
        }
        current = reaction.next;
        if reaction.register {
            let handle = WriteHandle::new(peer_manager.network);
            peer_manager.peer.insert(addr, SendToPeer::new(handle));
        }
        if reaction.success {
            peer_manager.completed = true;
        }
        write.write_all(reaction.replies);
        i += 1;
    }
    assert(all.take(i as int) =~= all);
    current
}

/// Once the handler is done, no message causes anything.
pub proof fn lemma_done_is_final(messages: Seq<IncomingView>, id: TxId, raw: Seq<u8>)
    ensures
        run(HandlerState::Done, messages, id, raw) == (Trace {
            state: HandlerState::Done,
            replies: seq![],
            registered: false,
            success: false,
        }),
    decreases messages.len(),
{
    if messages.len() > 0 {
        lemma_done_is_final(messages.drop_last(), id, raw);
    }
}

/// Handling a run of messages is handling its first part and then, from the
/// state reached, its second part.
pub proof fn lemma_run_in_parts(
    state: HandlerState,
    first: Seq<IncomingView>,
    second: Seq<IncomingView>,
    id: TxId,
    raw: Seq<u8>,
)
    ensures
        run(state, first + second, id, raw) == ({
            let a = run(state, first, id, raw);
            let b = run(a.state, second, id, raw);
            Trace {
                state: b.state,
                replies: a.replies + b.replies,
                registered: a.registered || b.registered,
                success: a.success || b.success,
            }
        }),
    decreases second.len(),
{
    let a = run(state, first, id, raw);
    if second.len() > 0 {
        let init = second.drop_last();
        lemma_run_in_parts(state, first, init, id, raw);
        assert((first + second).drop_last() =~= first + init);
        let b = run(a.state, init, id, raw);
        let step = react(b.state, second.last(), id, raw);
        assert((a.replies + b.replies) + step.replies =~= a.replies + (b.replies + step.replies));
    }
}

/// A connection on which the peer's handshake initiation never arrives is
/// never registered: whatever else arrives, in whatever state the handler
/// is, no message asks for an entry in the peer table.
pub proof fn lemma_no_handshake_no_registration(
    state: HandlerState,
    messages: Seq<IncomingView>,
    id: TxId,
    raw: Seq<u8>,
)
    requires
        forall|i: int| 0 <= i < messages.len() ==> !(messages[i] is Version),
    ensures
        !run(state, messages, id, raw).registered,
    decreases messages.len(),
{
    if messages.len() > 0 {
        lemma_no_handshake_no_registration(state, messages.drop_last(), id, raw);
    }
}

/// The transaction is sent at most once on a connection, and nothing is sent
/// after it: a transaction payload among the replies is the last reply, and
/// the handler is done once it has been sent.
pub proof fn lemma_payload_ends_connection(
    state: HandlerState,
    messages: Seq<IncomingView>,
    id: TxId,
    raw: Seq<u8>,
)
    ensures
        forall|i: int|
            0 <= i < run(state, messages, id, raw).replies.len() && (#[trigger] run(
                state,
                messages,
                id,
                raw,
            ).replies[i]) is Tx ==> i == run(state, messages, id, raw).replies.len() - 1 && run(
                state,
                messages,
                id,
                raw,
            ).state == HandlerState::Done,
    decreases messages.len(),
{
    if messages.len() > 0 {
        lemma_payload_ends_connection(state, messages.drop_last(), id, raw);
    }
}

/// A data request for exactly the transaction, arriving while the handler is
/// not done, is answered with exactly one transaction payload, which is the
/// first ever sent on the connection; whatever arrives afterwards causes no
/// further reply.
pub proof fn lemma_matching_request_answered_once(
    state: HandlerState,
    earlier: Seq<IncomingView>,
    later: Seq<IncomingView>,
    id: TxId,
    raw: Seq<u8>,
)
    requires
        run(state, earlier, id, raw).state != HandlerState::Done,
    ensures
        run(
            state,
            earlier + seq![IncomingView::GetData(inventory_of(id))] + later,
            id,
            raw,
        ).replies == run(state, earlier, id, raw).replies.push(OutgoingView::Tx(raw)),
        forall|i: int|
            0 <= i < run(state, earlier, id, raw).replies.len() ==> !(#[trigger] run(
                state,
                earlier,
                id,
                raw,
            ).replies[i] is Tx),
{
    let request = seq![IncomingView::GetData(inventory_of(id))];
    let a = run(state, earlier, id, raw);
    lemma_payload_ends_connection(state, earlier, id, raw);
    lemma_run_in_parts(state, earlier + request, later, id, raw);
    lemma_run_in_parts(state, earlier, request, id, raw);
    assert(run(a.state, request.drop_last(), id, raw).state == a.state);
    lemma_done_is_final(later, id, raw);
}

} // verus!
