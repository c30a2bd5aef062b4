//! The transaction data model: a `TransactionRecord` with its mathematical
//! view, the encoding error taxonomy, and the well-formedness predicate
//! that the encoder's round-trip law speaks of.

use vstd::prelude::*;
use crate::rlp::be_value;

verus! {

/// Why a record cannot be encoded.
#[derive(Clone, Copy, Debug, PartialEq, Eq, Structural)]
pub enum TxError {
    /// The `transaction_type` tag is none of absent, 1 (EIP-2930) or
    /// 2 (EIP-1559).
    UnsupportedTransactionType,
    /// A populated access list was supplied; only the empty list is
    /// representable.
    UnsupportedAccessList,
    /// An address was supplied with a length other than 20 bytes.
    MalformedAddress,
    /// A hash was supplied with a length other than 32 bytes.
    MalformedHash,
}

impl TxError {
    /// A short description of the error.
    pub fn describe(&self) -> (r: &'static str)
        ensures
            r@.len() > 0,
    {
        match self {
            TxError::UnsupportedTransactionType => {
                let s = "unsupported transaction type";
                proof {
                    reveal_strlit("unsupported transaction type");
                }
                s
            }
            TxError::UnsupportedAccessList => {
                let s = "non-empty access lists are not supported";
                proof {
                    reveal_strlit("non-empty access lists are not supported");
                }
                s
            }
            TxError::MalformedAddress => {
                let s = "an address must be exactly 20 bytes";
                proof {
                    reveal_strlit("an address must be exactly 20 bytes");
                }
                s
            }
            TxError::MalformedHash => {
                let s = "a hash must be exactly 32 bytes";
                proof {
                    reveal_strlit("a hash must be exactly 32 bytes");
                }
                s
            }
        }
    }
}

/// One access-list entry: an address and the storage keys warmed for it.
#[derive(Clone, Debug)]
pub struct AccessEntry {
    pub address: [u8; 20],
    pub storage_keys: Vec<[u8; 32]>,
}

/// Mathematical view of an access-list entry.
pub struct AccessEntryView {
    pub address: Seq<u8>,
    pub storage_keys: Seq<Seq<u8>>,
}

impl View for AccessEntry {
    type V = AccessEntryView;

    open spec fn view(&self) -> AccessEntryView {
        AccessEntryView {
            address: self.address@,
            storage_keys: self.storage_keys@.map_values(|k: [u8; 32]| k@),
        }
    }
}

/// One on-chain or candidate transaction. Numeric protocol fields are
/// machine integers; the 256-bit quantities `value`, `r` and `s` are held
/// as big-endian byte arrays.
#[derive(Clone, Debug)]
pub struct TransactionRecord {
    /// `None` selects the legacy encoding, `Some(1)` EIP-2930,
    /// `Some(2)` EIP-1559; every other tag is rejected.
    pub transaction_type: Option<u64>,
    pub nonce: u64,
    /// Present for legacy and EIP-2930 transactions.
    pub gas_price: Option<u64>,
    /// Present for EIP-1559 transactions.
    pub max_priority_fee_per_gas: Option<u64>,
    /// Present for EIP-1559 transactions.
    pub max_fee_per_gas: Option<u64>,
    pub gas_limit: u64,
    /// `None` signals contract creation and encodes as the empty string.
    pub to: Option<[u8; 20]>,
    /// Big-endian 256-bit amount.
    pub value: [u8; 32],
    pub input_data: Vec<u8>,
    /// Required by the typed encodings; absent encodes as zero.
    pub chain_id: Option<u64>,
    /// Only the empty access list is representable.
    pub access_list: Vec<AccessEntry>,
    pub v: u64,
    /// Big-endian 256-bit signature component.
    pub r: [u8; 32],
    /// Big-endian 256-bit signature component.
    pub s: [u8; 32],
}

/// Mathematical view of a transaction: every numeric field as an unbounded
/// natural, byte fields as sequences.
#[verifier::ext_equal]
pub struct TxView {
    pub transaction_type: Option<nat>,
    pub nonce: nat,
    pub gas_price: Option<nat>,
    pub max_priority_fee_per_gas: Option<nat>,
    pub max_fee_per_gas: Option<nat>,
    pub gas_limit: nat,
    pub to: Option<Seq<u8>>,
    pub value: nat,
    pub input_data: Seq<u8>,
    pub chain_id: Option<nat>,
    pub access_list: Seq<AccessEntryView>,
    pub v: nat,
    pub r: nat,
    pub s: nat,
}

/// Lift an optional machine integer to an optional natural.
pub open spec fn opt_nat(o: Option<u64>) -> Option<nat> {
    match o {
        Some(n) => Some(n as nat),
        None => None,
    }
}

/// Lift an optional address to an optional byte sequence.
pub open spec fn opt_addr(o: Option<[u8; 20]>) -> Option<Seq<u8>> {
    match o {
        Some(a) => Some(a@),
        None => None,
    }
}

impl View for TransactionRecord {
    type V = TxView;

    open spec fn view(&self) -> TxView {
        TxView {
            transaction_type: opt_nat(self.transaction_type),
            nonce: self.nonce as nat,
            gas_price: opt_nat(self.gas_price),
            max_priority_fee_per_gas: opt_nat(self.max_priority_fee_per_gas),
            max_fee_per_gas: opt_nat(self.max_fee_per_gas),
            gas_limit: self.gas_limit as nat,
            to: opt_addr(self.to),
            value: be_value(self.value@),
            input_data: self.input_data@,
            chain_id: opt_nat(self.chain_id),
            access_list: self.access_list@.map_values(|e: AccessEntry| e@),
            v: self.v as nat,
            r: be_value(self.r@),
            s: be_value(self.s@),
        }
    }
}

/// A record shaped as its transaction type demands: the fields the
/// encoding reads are present and machine-bounded, the fields foreign to
/// the type are absent, addresses are 20 bytes, and the access list is
/// empty. Encoding such a record succeeds and decoding recovers it field
/// for field.
pub open spec fn canonical(t: TxView) -> bool {
    &&& t.access_list.len() == 0
    &&& t.nonce < 0x1_0000_0000_0000_0000
    &&& t.gas_limit < 0x1_0000_0000_0000_0000
    &&& t.v < 0x1_0000_0000_0000_0000
    &&& t.value < pow256_32()
    &&& t.r < pow256_32()
    &&& t.s < pow256_32()
    &&& t.input_data.len() < 0x1000_0000_0000_0000
    &&& (t.to matches Some(a) ==> a.len() == 20)
    &&& match t.transaction_type {
        None => {
            &&& t.gas_price matches Some(g) && g < 0x1_0000_0000_0000_0000
            &&& t.chain_id is None
            &&& t.max_priority_fee_per_gas is None
            &&& t.max_fee_per_gas is None
        },
        Some(k) => {
            &&& t.chain_id matches Some(c) && c < 0x1_0000_0000_0000_0000
            &&& if k == 1 {
                &&& t.gas_price matches Some(g) && g < 0x1_0000_0000_0000_0000
                &&& t.max_priority_fee_per_gas is None
                &&& t.max_fee_per_gas is None
            } else {
                &&& k == 2
                &&& t.gas_price is None
                &&& t.max_priority_fee_per_gas matches Some(p) && p < 0x1_0000_0000_0000_0000
                &&& t.max_fee_per_gas matches Some(m) && m < 0x1_0000_0000_0000_0000
            }
        },
    }
}

/// 256 to the 32nd power: the bound of a 256-bit quantity.
pub open spec fn pow256_32() -> nat {
    crate::rlp::pow256(32)
}

/// Parse-boundary check for an address: exactly 20 bytes, never truncated
/// or padded.
pub fn address_from_bytes(b: &Vec<u8>) -> (r: Result<[u8; 20], TxError>)
    ensures
        b@.len() == 20 ==> (r matches Ok(a) && a@ == b@),
        b@.len() != 20 ==> r == Err::<[u8; 20], TxError>(TxError::MalformedAddress),
{
    if b.len() != 20 {
        return Err(TxError::MalformedAddress);
    }
    let mut a: [u8; 20] = [0; 20];
    let mut i: usize = 0;
    while i < 20
        invariant
            i <= 20,
            b@.len() == 20,
            a@.len() == 20,
            forall|j: int| 0 <= j < i ==> a@[j] == b@[j],
        decreases 20 - i,
    {
        a[i] = b[i];
        i = i + 1;
    }
    proof {
        assert(a@ =~= b@);
    }
    Ok(a)
}

/// Parse-boundary check for a 32-byte hash or 256-bit quantity: exactly
/// 32 bytes, never truncated or padded.
pub fn hash_from_bytes(b: &Vec<u8>) -> (r: Result<[u8; 32], TxError>)
    ensures
        b@.len() == 32 ==> (r matches Ok(h) && h@ == b@),
        b@.len() != 32 ==> r == Err::<[u8; 32], TxError>(TxError::MalformedHash),
{
    if b.len() != 32 {
        return Err(TxError::MalformedHash);
    }
    let mut h: [u8; 32] = [0; 32];
    let mut i: usize = 0;
    while i < 32
        invariant
            i <= 32,
            b@.len() == 32,
            h@.len() == 32,
            forall|j: int| 0 <= j < i ==> h@[j] == b@[j],
        decreases 32 - i,
    {
        h[i] = b[i];
        i = i + 1;
    }
    proof {
        assert(h@ =~= b@);
    }
    Ok(h)
}

} // verus!
