//! The entry point: from the text of a transaction to a manager that is
//! ready to run.

use crate::chain::{Network, PeerAddress};
use crate::peers::PeerManager;
use crate::table::Endpoint;
use crate::transaction::{parsed, Transaction, TxError};
use vstd::prelude::*;

verus! {

/// The number of peers the table is kept near.
pub const TARGET_PEERS: usize = 10;

/// The network joined.
pub const JOINED_NETWORK: Network = Network::Test;

/// Prepares the broadcast of the transaction that `tx` spells in
/// hexadecimal: a manager for the test network with a target of
/// [`TARGET_PEERS`] peers, an empty table and an empty address book.
/// A text that is no transaction is rejected with the reason.
pub fn platform(tx: String) -> (r: Result<PeerManager, TxError>)
    ensures
        r matches Ok(manager) ==> parsed(tx@, Ok(manager.tx)),
        r matches Err(e) ==> parsed(tx@, Err(e)),
        r matches Ok(manager) ==> {
            &&& manager.max_outbound == TARGET_PEERS
            &&& manager.network == JOINED_NETWORK
            &&& manager.peer@ == Map::<PeerAddress, Endpoint>::empty()
            &&& manager.book.network() == JOINED_NETWORK
            &&& manager.book.candidates() == Seq::<PeerAddress>::empty()
            &&& manager.book.known() == Set::<PeerAddress>::empty()
            &&& !manager.completed
        },
{
    match Transaction::from_hex(tx.as_str()) {
        Ok(tx) => Ok(PeerManager::new(TARGET_PEERS, tx, JOINED_NETWORK)),
        Err(e) => Err(e),
    }
}

} // verus!
