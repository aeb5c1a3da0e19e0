//! The wire codec: framing of received bytes and encoding of sent messages.
//!
//! Framing and encoding are the outside codec's work. This module names what
//! it computes, so that the rest of the crate can say exactly which bytes are
//! consumed and produced, and converts between its types and the crate's.

use crate::messages::{Incoming, IncomingView, Inventory, NetAddress, Outgoing, OutgoingView, VersionMessage};
use crate::transaction::{transaction_id, TxId};
use bitcoin::consensus::encode::Error;
use bitcoin::consensus::{deserialize, deserialize_partial, serialize};
use bitcoin::network::message::{NetworkMessage, RawNetworkMessage};
use bitcoin::network::{message_blockdata, message_network, Address};
use std::io::ErrorKind;
use vstd::prelude::*;

verus! {

/// Outcome of trying to take one frame from the front of a byte buffer.
#[derive(Debug, PartialEq, Eq)]
pub enum Decoded {
    /// A whole frame stood at the front: its message and its length in bytes.
    Frame(Incoming, usize),
    /// The bytes end before the frame does.
    Incomplete,
    /// The bytes are not a frame of this protocol.
    Invalid,
}

/// Mathematical value of a [`Decoded`].
pub enum DecodedView {
    Frame(IncomingView, nat),
    Incomplete,
    Invalid,
}

impl View for Decoded {
    type V = DecodedView;

    open spec fn view(&self) -> DecodedView {
        match self {
            Decoded::Frame(msg, len) => DecodedView::Frame(msg@, *len as nat),
            Decoded::Incomplete => DecodedView::Incomplete,
            Decoded::Invalid => DecodedView::Invalid,
        }
    }
}

/// What the codec makes of the front of `bytes`: one frame (magic, command,
/// length, checksum, payload) and how many bytes it spans, or that the bytes
/// run out, or that they are no frame.
pub uninterp spec fn frame_decoding(bytes: Seq<u8>) -> DecodedView;

/// The complete frame that carries `message` on the network with magic
/// `magic`.
pub uninterp spec fn wire_encoding(magic: u32, message: OutgoingView) -> Seq<u8>;

/// Calls `bitcoin::consensus::deserialize_partial::<RawNetworkMessage>` and
/// reduces what it returns to the crate's types: the payload to the kinds the
/// handler tells apart, an I/O error of kind `UnexpectedEof` to `Incomplete`,
/// every other error to `Invalid`. The result depends on the bytes alone and
/// is named `frame_decoding`. A decoded frame spans at least its 24-byte
/// header and at most the bytes given, since the count is the position of a
/// cursor over them.
#[verifier::external_body]
pub(crate) fn decode_frame(bytes: &[u8]) -> (r: Decoded)
    ensures
        r@ == frame_decoding(bytes@),
        r matches Decoded::Frame(_, len) ==> 0 < len <= bytes@.len(),
{
    let item = |i: &message_blockdata::Inventory| match i {
        message_blockdata::Inventory::Transaction(t) => Inventory::Transaction(TxId { bytes: bitcoin::hashes::Hash::into_inner(*t) }),
        _ => Inventory::Other,
    };
    match deserialize_partial::<RawNetworkMessage>(bytes) {
        Ok((raw, len)) => Decoded::Frame(match raw.payload {
            NetworkMessage::Version(_) => Incoming::Version,
            NetworkMessage::Inv(items) => Incoming::Inv(items.iter().map(item).collect()),
            NetworkMessage::GetData(items) => Incoming::GetData(items.iter().map(item).collect()),
            _ => Incoming::Other,
        }, len),
        Err(Error::Io(e)) if e.kind() == ErrorKind::UnexpectedEof => Decoded::Incomplete,
        Err(_) => Decoded::Invalid,
    }
}

/// Calls `bitcoin::consensus::serialize` on the frame that holds a handshake
/// initiation with the given fields, each address built by
/// `bitcoin::network::Address::new`. The bytes are named `wire_encoding`.
#[verifier::external_body]
fn encode_version(magic: u32, v: &VersionMessage) -> (out: Vec<u8>)
    ensures
        out@ == wire_encoding(magic, OutgoingView::Version(v@)),
{
    let address = |a: &NetAddress| Address::new(&(a.ip.to_be_bytes(), a.port).into(), a.services.into());
    let payload = NetworkMessage::Version(message_network::VersionMessage {
        version: v.version,
        services: v.services.into(),
        timestamp: v.timestamp,
        receiver: address(&v.receiver),
        sender: address(&v.sender),
        nonce: v.nonce,
        user_agent: v.user_agent.clone(),
        start_height: v.start_height,
        relay: v.relay,
    });
    serialize(&RawNetworkMessage { magic, payload })
}

/// Calls `bitcoin::consensus::serialize` on the frame that holds a handshake
/// acknowledgement. The bytes are named `wire_encoding`.
#[verifier::external_body]
fn encode_verack(magic: u32) -> (out: Vec<u8>)
    ensures
        out@ == wire_encoding(magic, OutgoingView::Verack),
{
    serialize(&RawNetworkMessage { magic, payload: NetworkMessage::Verack })
}

/// Calls `bitcoin::consensus::serialize` on the frame that advertises the
/// transactions with the given ids. The bytes are named `wire_encoding`.
#[verifier::external_body]
fn encode_inv(magic: u32, ids: &Vec<TxId>) -> (out: Vec<u8>)
    ensures
        out@ == wire_encoding(magic, OutgoingView::Inv(ids@)),
{
    let item = |id: &TxId| message_blockdata::Inventory::Transaction(bitcoin::hashes::Hash::from_inner(id.bytes));
    let payload = NetworkMessage::Inv(ids.iter().map(item).collect());
    serialize(&RawNetworkMessage { magic, payload })
}

/// Calls `bitcoin::consensus::serialize` on the frame that holds the
/// transaction which `raw` encodes, decoded by
/// `bitcoin::consensus::deserialize`. The bytes are named `wire_encoding`.
/// Bytes that are no transaction are left out.
#[verifier::external_body]
fn encode_tx(magic: u32, raw: &[u8]) -> (out: Vec<u8>)
    requires
        transaction_id(raw@) is Some,
    ensures
        out@ == wire_encoding(magic, OutgoingView::Tx(raw@)),
{
    match deserialize::<bitcoin::Transaction>(raw) {
        Ok(tx) => serialize(&RawNetworkMessage { magic, payload: NetworkMessage::Tx(tx) }),
        Err(_) => Vec::new(),
    }
}

/// Encodes `message` as one complete frame for the network with magic
/// `magic`.
pub fn encode(magic: u32, message: &Outgoing) -> (out: Vec<u8>)
    ensures
        out@ == wire_encoding(magic, message@),
{
    match message {
        Outgoing::Version(v) => encode_version(magic, v),
        Outgoing::Verack => encode_verack(magic),
        Outgoing::Inv(ids) => encode_inv(magic, ids),
        Outgoing::Tx(tx) => {
            let _ = tx.txid();
            encode_tx(magic, tx.as_bytes())
        },
    }
}

} // verus!
