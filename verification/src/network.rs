//! One connection to one peer: the buffer of received bytes and the queue of
//! messages to send.

use crate::buffer::{buffer_advance, buffer_bytes, buffer_extend, buffer_new, buffered};
use crate::chain::{magic_of, Network, PeerAddress};
use crate::codec::{decode_frame, encode, frame_decoding, wire_encoding, Decoded, DecodedView};
use crate::messages::{incoming_views, views, Incoming, IncomingView, Outgoing, OutgoingView};
use bytes::BytesMut;
use vstd::prelude::*;

verus! {

/// A producer's end of a connection's outbound queue.
///
/// Messages written through one handle leave in the order they were written.
/// A connection may have several handles; nothing orders messages of
/// different handles among each other.
#[derive(Debug)]
pub struct WriteHandle {
    network: Network,
    queue: Vec<Outgoing>,
}

impl View for WriteHandle {
    type V = Seq<OutgoingView>;

    /// The messages written and not yet taken, oldest first.
    closed spec fn view(&self) -> Seq<OutgoingView> {
        views(self.queue@)
    }
}

impl WriteHandle {
    /// The network whose magic opens the frames of this handle.
    pub closed spec fn spec_network(&self) -> Network {
        self.network
    }

    /// The network whose magic opens the frames of this handle.
    #[verifier::when_used_as_spec(spec_network)]
    pub fn network(&self) -> (network: Network)
        ensures
            network == self.network(),
    {
        self.network
    }

    /// A handle with nothing queued.
    pub fn new(network: Network) -> (handle: WriteHandle)
        ensures
            handle@ == Seq::<OutgoingView>::empty(),
            handle.network() == network,
    {
        WriteHandle { network, queue: Vec::new() }
    }

    /// Queues `message` behind everything written before.
    pub fn write_message(&mut self, message: Outgoing)
        ensures
            final(self)@ == old(self)@.push(message@),
            final(self).network() == old(self).network(),
    {
        self.queue.push(message);
    }

    /// Queues `messages` in their order behind everything written before.
    pub fn write_all(&mut self, messages: Vec<Outgoing>)
        ensures
            final(self)@ == old(self)@ + views(messages@),
            final(self).network() == old(self).network(),
    {
        let mut messages = messages;
        self.queue.append(&mut messages);
    }

    /// How many messages wait to be taken.
    pub fn pending(&self) -> (n: usize)
        ensures
            n == self@.len(),
    {
        self.queue.len()
    }

    /// Takes the oldest queued message and encodes it as a complete frame
    /// for this handle's network; `None` when nothing is queued.
    pub fn next_frame(&mut self) -> (frame: Option<Vec<u8>>)
        ensures
            final(self).network() == old(self).network(),
            old(self)@.len() == 0 ==> frame is None && final(self)@ == old(self)@,
            old(self)@.len() > 0 ==> final(self)@ == old(self)@.skip(1),
            old(self)@.len() > 0 ==> frame is Some && frame->0@ == wire_encoding(
                magic_of(old(self).network()),
                old(self)@[0],
            ),
    {
        if self.queue.len() == 0 {
            return None;
        }
        let message = self.queue.remove(0);
        Some(encode(self.network.magic(), &message))
    }
}

/// How a connection's receiving side stands.
#[derive(Clone, Copy, Debug, PartialEq, Eq, Structural)]
pub enum ConnectionStatus {
    /// Bytes are accepted.
    Open,
    /// The peer closed the stream.
    Closed,
    /// The received bytes were not a frame, or could not be held.
    Failed,
}

/// The receiving side of a connection to one peer.
pub struct Connection {
    addr: PeerAddress,
    status: ConnectionStatus,
    buf: BytesMut,
}

/// What a read loop makes of a byte buffer.
pub struct Drained {
    /// The messages of the whole frames at the front, in arrival order.
    pub messages: Seq<IncomingView>,
    /// The bytes left behind the last whole frame.
    pub rest: Seq<u8>,
    /// Whether the bytes behind the last whole frame are no frame.
    pub failed: bool,
}

/// Takes frames from the front of `bytes` for as long as the codec finds
/// one, and stops where the bytes run out or are no frame.
pub open spec fn drain(bytes: Seq<u8>) -> Drained
    decreases bytes.len(),
{
    match frame_decoding(bytes) {
        DecodedView::Frame(msg, len) => if 0 < len <= bytes.len() {
            let tail = drain(bytes.skip(len as int));
            Drained { messages: seq![msg] + tail.messages, rest: tail.rest, failed: tail.failed }
        } else {
            Drained { messages: seq![], rest: bytes, failed: true }
        },
        DecodedView::Incomplete => Drained { messages: seq![], rest: bytes, failed: false },
        DecodedView::Invalid => Drained { messages: seq![], rest: bytes, failed: true },
    }
}

/// The receiving side after `data` arrived, and the messages it yields.
///
/// Only an open connection takes bytes. No bytes at all mean that the peer
/// closed the stream. Otherwise the bytes join the buffer, every whole frame
/// is taken from its front, and the connection fails if what follows is no
/// frame, or if buffer and data together exceed `isize::MAX` bytes.
pub open spec fn receive(status: ConnectionStatus, held: Seq<u8>, data: Seq<u8>) -> (
    ConnectionStatus,
    Drained,
) {
    let nothing = Drained { messages: seq![], rest: held, failed: false };
    if status != ConnectionStatus::Open {
        (status, nothing)
    } else if data.len() == 0 {
        (ConnectionStatus::Closed, nothing)
    } else if held.len() + data.len() > isize::MAX {
        (ConnectionStatus::Failed, nothing)
    } else {
        let drained = drain(held + data);
        (
            if drained.failed {
                ConnectionStatus::Failed
            } else {
                ConnectionStatus::Open
            },
            drained,
        )
    }
}

impl Connection {
    /// The peer this connection leads to.
    pub closed spec fn peer(&self) -> PeerAddress {
        self.addr
    }

    /// Whether bytes are still accepted, and if not, why.
    pub closed spec fn state(&self) -> ConnectionStatus {
        self.status
    }

    /// The received bytes that no whole frame has claimed yet.
    pub closed spec fn held(&self) -> Seq<u8> {
        buffered(self.buf)
    }

    /// The peer this connection leads to.
    pub fn addr(&self) -> (addr: PeerAddress)
        ensures
            addr == self.peer(),
    {
        self.addr
    }

    /// Whether bytes are still accepted, and if not, why.
    pub fn status(&self) -> (status: ConnectionStatus)
        ensures
            status == self.state(),
    {
        self.status
    }

    /// How many received bytes wait for the rest of their frame.
    pub fn buffered_len(&self) -> (n: usize)
        ensures
            n == self.held().len(),
    {
        buffer_bytes(&self.buf).len()
    }

    /// Ends the receiving side after the transport failed or was shut down.
    pub fn close(&mut self)
        ensures
            final(self).peer() == old(self).peer(),
            final(self).held() == old(self).held(),
            final(self).state() == if old(self).state() == ConnectionStatus::Open {
                ConnectionStatus::Closed
            } else {
                old(self).state()
            },
    {
        if self.status == ConnectionStatus::Open {
            self.status = ConnectionStatus::Closed;
        }
    }
}

/// Sets up the two sides of a connection to the peer at `addr`: a write
/// handle with nothing queued and an open receiving side with an empty
/// buffer.
pub fn create_connection(addr: PeerAddress, network: Network) -> (sides: (WriteHandle, Connection))
    ensures
        sides.0@ == Seq::<OutgoingView>::empty(),
        sides.0.network() == network,
        sides.1.peer() == addr,
        sides.1.state() == ConnectionStatus::Open,
        sides.1.held() == Seq::<u8>::empty(),
{
    (
        WriteHandle::new(network),
        Connection { addr, status: ConnectionStatus::Open, buf: buffer_new() },
    )
}

/// Runs the read loop on the bytes that just arrived on `conn`: `data` joins
/// the buffer, and every whole frame at its front is decoded and taken off.
/// Returns the decoded messages in arrival order.
pub fn run_connection(conn: &mut Connection, data: &[u8]) -> (messages: Vec<Incoming>)
    ensures
        final(conn).peer() == old(conn).peer(),
        final(conn).state() == receive(old(conn).state(), old(conn).held(), data@).0,
        final(conn).held() == receive(old(conn).state(), old(conn).held(), data@).1.rest,
        incoming_views(messages@) == receive(old(conn).state(), old(conn).held(), data@).1.messages,
{
    let mut messages: Vec<Incoming> = Vec::new();
    if conn.status != ConnectionStatus::Open {
        return messages;
    }
    if data.len() == 0 {
        conn.status = ConnectionStatus::Closed;
        return messages;
    }
    let held = buffer_bytes(&conn.buf).len();
    let limit = isize::MAX as usize;
    if data.len() > limit || held > limit - data.len() {
        conn.status = ConnectionStatus::Failed;
        return messages;
    }
    buffer_extend(&mut conn.buf, data);
    let ghost all = old(conn).held() + data@;
    loop
        invariant_except_break
            conn.addr == old(conn).addr,
            conn.status == ConnectionStatus::Open,
            drain(all).messages == incoming_views(messages@) + drain(buffered(conn.buf)).messages,
            drain(all).rest == drain(buffered(conn.buf)).rest,
            drain(all).failed == drain(buffered(conn.buf)).failed,
        ensures
            conn.addr == old(conn).addr,
            drain(all).messages == incoming_views(messages@),
            drain(all).rest == buffered(conn.buf),
            conn.status == if drain(all).failed {
                ConnectionStatus::Failed
            } else {
                ConnectionStatus::Open
            },
        decreases buffered(conn.buf).len(),
    {
        match decode_frame(buffer_bytes(&conn.buf)) {
            Decoded::Frame(message, len) => {
                buffer_advance(&mut conn.buf, len);
                messages.push(message);
            },
            Decoded::Incomplete => {
                break ;
            },
            Decoded::Invalid => {
                conn.status = ConnectionStatus::Failed;
                break ;
            },
        }
    }
    messages
}

} // verus!
