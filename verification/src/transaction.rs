//! The transaction to broadcast: its raw bytes and its content-derived id.

use bitcoin::hashes::hex::FromHex;
use vstd::prelude::*;

verus! {

/// A 32-byte transaction id, in the byte order used on the wire.
#[derive(Clone, Copy, Debug)]
pub struct TxId {
    pub bytes: [u8; 32],
}

impl PartialEq for TxId {
    fn eq(&self, other: &TxId) -> (r: bool) {
        let mut i: usize = 0;
        while i < 32
            invariant
                i <= 32,
                forall|j: int| 0 <= j < i ==> self.bytes[j] == other.bytes[j],
            decreases 32 - i,
        {
            if self.bytes[i] != other.bytes[i] {
                return false;
            }
            i += 1;
        }
        assert(self.bytes =~= other.bytes);
        true
    }
}

impl Eq for TxId {

}

impl vstd::std_specs::cmp::PartialEqSpecImpl for TxId {
    open spec fn obeys_eq_spec() -> bool {
        true
    }

    open spec fn eq_spec(&self, other: &TxId) -> bool {
        *self == *other
    }
}

/// Why a hexadecimal string is not a transaction.
#[derive(Clone, Copy, Debug, PartialEq, Eq, Structural)]
pub enum TxError {
    /// The string has odd length or holds a character that is no hex digit.
    InvalidHex,
    /// The decoded bytes are not the encoding of one transaction.
    Malformed,
}

/// Value of one hexadecimal digit, upper or lower case.
pub open spec fn hex_digit(c: char) -> Option<int> {
    let v = c as u32;
    if 0x30 <= v <= 0x39 {
        Some(v - 0x30)
    } else if 0x61 <= v <= 0x66 {
        Some(v - 0x61 + 10)
    } else if 0x41 <= v <= 0x46 {
        Some(v - 0x41 + 10)
    } else {
        None
    }
}

/// The bytes that a hexadecimal string spells, two digits per byte with the
/// high digit first; `None` unless the string is an even number of hex digits.
pub open spec fn hex_decoding(s: Seq<char>) -> Option<Seq<u8>> {
    if s.len() % 2 == 0 && forall|i: int| 0 <= i < s.len() ==> hex_digit(#[trigger] s[i]) is Some {
        Some(
            Seq::new(
                s.len() / 2,
                |i: int| (hex_digit(s[2 * i])->0 * 16 + hex_digit(s[2 * i + 1])->0) as u8,
            ),
        )
    } else {
        None
    }
}

/// The id of the transaction that `raw` encodes; `None` where `raw` is not
/// exactly one consensus-encoded transaction.
pub uninterp spec fn transaction_id(raw: Seq<u8>) -> Option<TxId>;

/// Calls `Vec::<u8>::from_hex` of `bitcoin::hashes::hex`. That function
/// rejects a string of odd length and any character outside `0-9a-fA-F`, and
/// otherwise yields one byte per digit pair, high digit first.
#[verifier::external_body]
fn hex_to_bytes(s: &str) -> (r: Option<Vec<u8>>)
    ensures
        r is Some <==> hex_decoding(s@) is Some,
        r matches Some(v) ==> hex_decoding(s@) == Some(v@),
{
    Vec::<u8>::from_hex(s).ok()
}

/// Calls `bitcoin::consensus::deserialize::<bitcoin::Transaction>` and, where
/// it succeeds, `Transaction::txid` on what it returned. The result depends on
/// the bytes alone and is given the name `transaction_id`.
#[verifier::external_body]
fn compute_txid(raw: &[u8]) -> (r: Option<TxId>)
    ensures
        r == transaction_id(raw@),
{
    bitcoin::consensus::deserialize::<bitcoin::Transaction>(raw).ok().map(
        |t| TxId { bytes: bitcoin::hashes::Hash::into_inner(t.txid()) },
    )
}

/// A transaction whose bytes are known to decode, together with its id.
#[derive(Debug, PartialEq, Eq)]
pub struct Transaction {
    raw: Vec<u8>,
    txid: TxId,
}

impl View for Transaction {
    type V = Seq<u8>;

    /// The raw bytes of the transaction.
    closed spec fn view(&self) -> Seq<u8> {
        self.raw@
    }
}

impl Clone for Transaction {
    fn clone(&self) -> (r: Transaction)
        ensures
            r@ == self@,
            r.id() == self.id(),
    {
        proof {
            use_type_invariant(self);
        }
        Transaction { raw: self.raw.clone(), txid: self.txid }
    }
}

impl Transaction {
    #[verifier::type_invariant]
    spec fn id_matches_bytes(&self) -> bool {
        transaction_id(self.raw@) == Some(self.txid)
    }

    /// The id held with the transaction.
    pub closed spec fn id(&self) -> TxId {
        self.txid
    }

    /// Accepts `raw` if it is the encoding of one transaction.
    pub fn from_bytes(raw: Vec<u8>) -> (r: Option<Transaction>)
        ensures
            r is Some <==> transaction_id(raw@) is Some,
            r matches Some(tx) ==> tx@ == raw@ && Some(tx.id()) == transaction_id(raw@),
    {
        match compute_txid(raw.as_slice()) {
            Some(txid) => Some(Transaction { raw, txid }),
            None => None,
        }
    }

    /// Parses a transaction from the hexadecimal spelling of its encoding.
    pub fn from_hex(hex: &str) -> (r: Result<Transaction, TxError>)
        ensures
            parsed(hex@, r),
    {
        match hex_to_bytes(hex) {
            None => Err(TxError::InvalidHex),
            Some(raw) => match Transaction::from_bytes(raw) {
                Some(tx) => Ok(tx),
                None => Err(TxError::Malformed),
            },
        }
    }

    /// The id of the transaction: a function of its bytes alone.
    pub fn txid(&self) -> (id: TxId)
        ensures
            id == self.id(),
            transaction_id(self@) == Some(id),
    {
        proof {
            use_type_invariant(self);
        }
        self.txid
    }

    /// The raw bytes of the transaction.
    pub fn as_bytes(&self) -> (raw: &[u8])
        ensures
            raw@ == self@,
    {
        self.raw.as_slice()
    }
}

/// What [`Transaction::from_hex`] makes of a text: the transaction whose
/// bytes the text spells, or the reason why there is none.
pub open spec fn parsed(hex: Seq<char>, outcome: Result<Transaction, TxError>) -> bool {
    match outcome {
        Ok(tx) => hex_decoding(hex) == Some(tx@) && transaction_id(tx@) == Some(tx.id()),
        Err(TxError::InvalidHex) => hex_decoding(hex) is None,
        Err(TxError::Malformed) => hex_decoding(hex) matches Some(raw) && transaction_id(raw) is None,
    }
}

/// Decoding is deterministic and the id is stable: whenever and wherever one
/// text is parsed, it is always accepted or always rejected for the same
/// reason, and when accepted it always gives the same bytes and the same id.
pub proof fn lemma_decoding_deterministic(
    hex: Seq<char>,
    first: Result<Transaction, TxError>,
    second: Result<Transaction, TxError>,
)
    requires
        parsed(hex, first),
        parsed(hex, second),
    ensures
        first is Ok <==> second is Ok,
        first matches Ok(a) ==> second matches Ok(b) ==> a@ == b@ && a.id() == b.id(),
        first matches Err(e) ==> second matches Err(f) ==> e == f,
{
}

} // verus!
