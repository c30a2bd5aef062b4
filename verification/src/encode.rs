//! Type-aware transaction encoding: one field ordering per transaction
//! type (legacy, EIP-2930, EIP-1559), the typed variants prefixed with
//! their type byte, exactly as the consensus RLP rules demand.

use vstd::prelude::*;
use crate::rlp::{
    rlp_str, rlp_list, rlp_uint, append_all, append_str, append_uint, append_uint_be32, wrap_list,
};
use crate::tx::{TransactionRecord, TxView, TxError, opt_nat, opt_addr};

verus! {

/// An optional integer field encodes as its value, or as zero when absent.
pub open spec fn or_zero(o: Option<nat>) -> nat {
    match o {
        Some(n) => n,
        None => 0,
    }
}

/// An absent recipient (contract creation) encodes as the empty string.
pub open spec fn addr_bytes(to: Option<Seq<u8>>) -> Seq<u8> {
    match to {
        Some(a) => a,
        None => Seq::empty(),
    }
}

/// The list payload of a legacy transaction: nine fields in encoding
/// order.
pub open spec fn legacy_payload(t: TxView) -> Seq<u8> {
    rlp_uint(t.nonce) + rlp_uint(or_zero(t.gas_price)) + rlp_uint(t.gas_limit) + rlp_str(
        addr_bytes(t.to),
    ) + rlp_uint(t.value) + rlp_str(t.input_data) + rlp_uint(t.v) + rlp_uint(t.r) + rlp_uint(t.s)
}

/// The list payload of an EIP-2930 transaction: eleven fields in encoding
/// order, the empty access-list marker among them.
pub open spec fn eip2930_payload(t: TxView) -> Seq<u8> {
    rlp_uint(or_zero(t.chain_id)) + rlp_uint(t.nonce) + rlp_uint(or_zero(t.gas_price)) + rlp_uint(
        t.gas_limit,
    ) + rlp_str(addr_bytes(t.to)) + rlp_uint(t.value) + rlp_str(t.input_data) + rlp_list(
        Seq::empty(),
    ) + rlp_uint(t.v) + rlp_uint(t.r) + rlp_uint(t.s)
}

/// The list payload of an EIP-1559 transaction: twelve fields in encoding
/// order, the empty access-list marker among them.
pub open spec fn eip1559_payload(t: TxView) -> Seq<u8> {
    rlp_uint(or_zero(t.chain_id)) + rlp_uint(t.nonce) + rlp_uint(
        or_zero(t.max_priority_fee_per_gas),
    ) + rlp_uint(or_zero(t.max_fee_per_gas)) + rlp_uint(t.gas_limit) + rlp_str(addr_bytes(t.to))
        + rlp_uint(t.value) + rlp_str(t.input_data) + rlp_list(Seq::empty()) + rlp_uint(t.v)
        + rlp_uint(t.r) + rlp_uint(t.s)
}

/// What encoding a record yields, or exactly which error rejects it:
/// a tag outside {absent, 1, 2} is unsupported, and with a supported tag a
/// populated access list is unsupported; every other record encodes.
pub open spec fn spec_encode(t: TxView) -> Result<Seq<u8>, TxError> {
    match t.transaction_type {
        None => if t.access_list.len() != 0 {
            Err(TxError::UnsupportedAccessList)
        } else {
            Ok(rlp_list(legacy_payload(t)))
        },
        Some(k) => if k != 1 && k != 2 {
            Err(TxError::UnsupportedTransactionType)
        } else if t.access_list.len() != 0 {
            Err(TxError::UnsupportedAccessList)
        } else if k == 1 {
            Ok(seq![1u8] + rlp_list(eip2930_payload(t)))
        } else {
            Ok(seq![2u8] + rlp_list(eip1559_payload(t)))
        },
    }
}

/// View of an encoding result, byte vector as byte sequence.
pub open spec fn result_bytes(r: Result<Vec<u8>, TxError>) -> Result<Seq<u8>, TxError> {
    match r {
        Ok(v) => Ok(v@),
        Err(e) => Err(e),
    }
}

/// Law: a transaction-type tag other than absent, 1 or 2 is always
/// rejected as unsupported — never encoded as a best-effort legacy
/// fallback — whatever the rest of the record holds.
pub proof fn lemma_unsupported_type_rejected(t: TxView, k: nat)
    requires
        t.transaction_type == Some(k),
        k != 1,
        k != 2,
    ensures
        spec_encode(t) == Err::<Seq<u8>, TxError>(TxError::UnsupportedTransactionType),
{
}

/// Law: with a supported transaction type, a populated access list is
/// always rejected — never silently dropped.
pub proof fn lemma_populated_access_list_rejected(t: TxView)
    requires
        t.transaction_type is None || t.transaction_type == Some(1nat) || t.transaction_type
            == Some(2nat),
        t.access_list.len() != 0,
    ensures
        spec_encode(t) == Err::<Seq<u8>, TxError>(TxError::UnsupportedAccessList),
{
}

/// The value of an optional integer field, or zero when absent.
fn opt_or_zero_u64(o: &Option<u64>) -> (r: u64)
    ensures
        r as nat == or_zero(opt_nat(*o)),
{
    match o {
        Some(n) => *n,
        None => 0,
    }
}

/// Append the RLP item for the recipient field.
fn append_addr(out: &mut Vec<u8>, to: &Option<[u8; 20]>)
    ensures
        final(out)@ == old(out)@ + rlp_str(addr_bytes(opt_addr(*to))),
{
    match to {
        Some(a) => {
            let mut v: Vec<u8> = Vec::new();
            let mut i: usize = 0;
            while i < 20
                invariant
                    i <= 20,
                    a@.len() == 20,
                    v@ == a@.subrange(0, i as int),
                decreases 20 - i,
            {
                let ghost pre = v@;
                v.push(a[i]);
                proof {
                    assert(pre.push(a@[i as int]) =~= a@.subrange(0, i + 1));
                }
                i = i + 1;
            }
            proof {
                assert(v@ =~= a@);
            }
            append_str(out, &v);
        }
        None => {
            let v: Vec<u8> = Vec::new();
            append_str(out, &v);
        }
    }
}

/// Build the list payload of a legacy transaction.
fn encode_legacy_payload(t: &TransactionRecord) -> (p: Vec<u8>)
    ensures
        p@ == legacy_payload(t@),
{
    let mut p: Vec<u8> = Vec::new();
    append_uint(&mut p, t.nonce);
    append_uint(&mut p, opt_or_zero_u64(&t.gas_price));
    append_uint(&mut p, t.gas_limit);
    append_addr(&mut p, &t.to);
    append_uint_be32(&mut p, &t.value);
    append_str(&mut p, &t.input_data);
    append_uint(&mut p, t.v);
    append_uint_be32(&mut p, &t.r);
    append_uint_be32(&mut p, &t.s);
    proof {
        assert(Seq::<u8>::empty() + rlp_uint(t@.nonce) =~= rlp_uint(t@.nonce));
    }
    p
}

/// Build the list payload of an EIP-2930 transaction.
fn encode_eip2930_payload(t: &TransactionRecord) -> (p: Vec<u8>)
    ensures
        p@ == eip2930_payload(t@),
{
    let mut p: Vec<u8> = Vec::new();
    append_uint(&mut p, opt_or_zero_u64(&t.chain_id));
    append_uint(&mut p, t.nonce);
    append_uint(&mut p, opt_or_zero_u64(&t.gas_price));
    append_uint(&mut p, t.gas_limit);
    append_addr(&mut p, &t.to);
    append_uint_be32(&mut p, &t.value);
    append_str(&mut p, &t.input_data);
    let ghost pre = p@;
    p.push(0xc0);
    proof {
        assert(rlp_list(Seq::empty()) =~= seq![0xc0u8]);
        assert(pre.push(0xc0u8) =~= pre + rlp_list(Seq::empty()));
    }
    append_uint(&mut p, t.v);
    append_uint_be32(&mut p, &t.r);
    append_uint_be32(&mut p, &t.s);
    proof {
        assert(Seq::<u8>::empty() + rlp_uint(or_zero(t@.chain_id)) =~= rlp_uint(
            or_zero(t@.chain_id),
        ));
    }
    p
}

/// Build the list payload of an EIP-1559 transaction.
fn encode_eip1559_payload(t: &TransactionRecord) -> (p: Vec<u8>)
    ensures
        p@ == eip1559_payload(t@),
{
    let mut p: Vec<u8> = Vec::new();
    append_uint(&mut p, opt_or_zero_u64(&t.chain_id));
    append_uint(&mut p, t.nonce);
    append_uint(&mut p, opt_or_zero_u64(&t.max_priority_fee_per_gas));
    append_uint(&mut p, opt_or_zero_u64(&t.max_fee_per_gas));
    append_uint(&mut p, t.gas_limit);
    append_addr(&mut p, &t.to);
    append_uint_be32(&mut p, &t.value);
    append_str(&mut p, &t.input_data);
    let ghost pre = p@;
    p.push(0xc0);
    proof {
        assert(rlp_list(Seq::empty()) =~= seq![0xc0u8]);
        assert(pre.push(0xc0u8) =~= pre + rlp_list(Seq::empty()));
    }
    append_uint(&mut p, t.v);
    append_uint_be32(&mut p, &t.r);
    append_uint_be32(&mut p, &t.s);
    proof {
        assert(Seq::<u8>::empty() + rlp_uint(or_zero(t@.chain_id)) =~= rlp_uint(
            or_zero(t@.chain_id),
        ));
    }
    p
}

/// Encode a transaction record per its type, or report exactly why it
/// cannot be encoded.
pub fn encode(t: &TransactionRecord) -> (r: Result<Vec<u8>, TxError>)
    ensures
        result_bytes(r) == spec_encode(t@),
{
    match t.transaction_type {
        None => {
            if t.access_list.len() != 0 {
                return Err(TxError::UnsupportedAccessList);
            }
            let payload = encode_legacy_payload(t);
            Ok(wrap_list(payload))
        }
        Some(k) => {
            if k != 1 && k != 2 {
                return Err(TxError::UnsupportedTransactionType);
            }
            if t.access_list.len() != 0 {
                return Err(TxError::UnsupportedAccessList);
            }
            let payload = if k == 1 {
                encode_eip2930_payload(t)
            } else {
                encode_eip1559_payload(t)
            };
            let body = wrap_list(payload);
            let mut out: Vec<u8> = Vec::new();
            if k == 1 {
                out.push(1u8);
            } else {
                out.push(2u8);
            }
            append_all(&mut out, &body);
            proof {
                if k == 1 {
                    assert(out@ =~= seq![1u8] + body@);
                } else {
                    assert(out@ =~= seq![2u8] + body@);
                }
            }
            Ok(out)
        }
    }
}

} // verus!
