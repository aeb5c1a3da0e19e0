//! A sans-I/O engine for broadcasting one transaction to a peer-to-peer
//! ledger network: wire framing, the per-connection handshake state machine,
//! the peer table, peer discovery and the broadcast schedule.
//!
//! The crate performs no I/O itself. A driver owns sockets and timers, feeds
//! received bytes in, and carries out what the engine decides.

pub mod chain;
pub mod transaction;
pub mod messages;
pub mod codec;
pub mod buffer;
pub mod network;
mod random;
pub mod table;
pub mod discovery;
pub mod peers;
pub mod api;
