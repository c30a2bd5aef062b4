//! The equality verifier: recompute the digest of a transaction's encoding
//! and compare it byte for byte against a caller-supplied claim, or compare
//! two field claims directly. A mismatch is a legitimate `false` verdict,
//! never an error; only a record that cannot be encoded is an error.

use vstd::prelude::*;
use crate::encode::{encode, spec_encode};
use crate::hash::{digest, keccak_of};
use crate::tx::{TransactionRecord, TxError, TxView};

verus! {

/// Whether a canonical encoding of `t` exists and its digest equals
/// `claim`.
pub open spec fn spec_verify_hash(t: TxView, claim: Seq<u8>) -> Result<bool, TxError> {
    match spec_encode(t) {
        Ok(b) => Ok(claim == keccak_of(b)),
        Err(e) => Err(e),
    }
}

/// Byte-for-byte equality of two 32-byte values.
pub fn bytes32_eq(a: &[u8; 32], b: &[u8; 32]) -> (r: bool)
    ensures
        r <==> a@ == b@,
{
    let mut i: usize = 0;
    let mut eq = true;
    while i < 32
        invariant
            i <= 32,
            a@.len() == 32,
            b@.len() == 32,
            eq <==> (forall|j: int| 0 <= j < i ==> a@[j] == b@[j]),
        decreases 32 - i,
    {
        if a[i] != b[i] {
            eq = false;
        }
        i = i + 1;
    }
    proof {
        if eq {
            assert(a@ =~= b@);
        }
    }
    eq
}

/// Byte-for-byte equality of two 20-byte values.
pub fn bytes20_eq(a: &[u8; 20], b: &[u8; 20]) -> (r: bool)
    ensures
        r <==> a@ == b@,
{
    let mut i: usize = 0;
    let mut eq = true;
    while i < 20
        invariant
            i <= 20,
            a@.len() == 20,
            b@.len() == 20,
            eq <==> (forall|j: int| 0 <= j < i ==> a@[j] == b@[j]),
        decreases 20 - i,
    {
        if a[i] != b[i] {
            eq = false;
        }
        i = i + 1;
    }
    proof {
        if eq {
            assert(a@ =~= b@);
        }
    }
    eq
}

/// Encode `t`, digest the encoding, and compare against the claimed hash.
/// `Ok(true)` exactly when the claim equals the recomputed digest;
/// an encoding error aborts with no verdict.
pub fn verify_hash(t: &TransactionRecord, claim: &[u8; 32]) -> (r: Result<bool, TxError>)
    ensures
        (match r {
            Ok(ok) => spec_encode(t@) matches Ok(b) && (ok <==> claim@ == keccak_of(b)),
            Err(e) => spec_encode(t@) == Err::<Seq<u8>, TxError>(e),
        }),
        r == spec_verify_hash(t@, claim@),
{
    match encode(t) {
        Ok(bytes) => {
            let computed = digest(&bytes);
            Ok(bytes32_eq(claim, &computed))
        }
        Err(e) => Err(e),
    }
}

/// Encode `t` and digest the encoding: the byte sequence handed to the
/// proof boundary together with the hash a claim is checked against.
pub fn encode_and_digest(t: &TransactionRecord) -> (r: Result<(Vec<u8>, [u8; 32]), TxError>)
    ensures
        (match r {
            Ok(p) => spec_encode(t@) == Ok::<Seq<u8>, TxError>(p.0@) && p.1@ == keccak_of(p.0@),
            Err(e) => spec_encode(t@) == Err::<Seq<u8>, TxError>(e),
        }),
{
    match encode(t) {
        Ok(bytes) => {
            let h = digest(&bytes);
            Ok((bytes, h))
        }
        Err(e) => Err(e),
    }
}

/// A caller-asserted transfer: sender, recipient and big-endian amount.
#[derive(Clone, Copy, Debug)]
pub struct FieldClaim {
    pub from: [u8; 20],
    pub to: [u8; 20],
    pub amount: [u8; 32],
}

/// Compare a claimed transfer against an independently supplied one,
/// field by field. `true` exactly when all three fields agree.
pub fn verify_fields(claim: &FieldClaim, actual: &FieldClaim) -> (r: bool)
    ensures
        r <==> (claim.from@ == actual.from@ && claim.to@ == actual.to@ && claim.amount@
            == actual.amount@),
{
    let from_ok = bytes20_eq(&claim.from, &actual.from);
    let to_ok = bytes20_eq(&claim.to, &actual.to);
    let amount_ok = bytes32_eq(&claim.amount, &actual.amount);
    from_ok && to_ok && amount_ok
}

} // verus!
