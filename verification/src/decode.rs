//! Decoding per the RLP rules, and the round-trip law: decoding the
//! encoding of a well-formed record recovers the record field for field.

use vstd::prelude::*;
use crate::rlp::{
    be_bytes_of, be_value, rlp_str, rlp_list, pow256, lemma_be_value_of_be_bytes,
    lemma_be_bytes_len,
};
use crate::tx::{TxView, AccessEntryView, canonical};
use crate::encode::{
    spec_encode, legacy_payload, eip2930_payload, eip1559_payload, or_zero, addr_bytes,
};

verus! {

/// Parse one RLP string item at the front of `b`: its payload and what
/// follows it.
pub open spec fn parse_str_item(b: Seq<u8>) -> Option<(Seq<u8>, Seq<u8>)> {
    if b.len() == 0 {
        None
    } else if b[0] < 0x80 {
        Some((seq![b[0]], b.subrange(1, b.len() as int)))
    } else if b[0] <= 0xb7 {
        let l = b[0] - 0x80;
        if b.len() >= 1 + l {
            Some((b.subrange(1, 1 + l), b.subrange(1 + l, b.len() as int)))
        } else {
            None
        }
    } else if b[0] <= 0xbf {
        let ll = b[0] - 0xb7;
        if b.len() >= 1 + ll {
            let l = be_value(b.subrange(1, 1 + ll)) as int;
            if b.len() >= 1 + ll + l {
                Some((b.subrange(1 + ll, 1 + ll + l), b.subrange(1 + ll + l, b.len() as int)))
            } else {
                None
            }
        } else {
            None
        }
    } else {
        None
    }
}

/// Parse one RLP list item at the front of `b`: its payload and what
/// follows it.
pub open spec fn parse_list_item(b: Seq<u8>) -> Option<(Seq<u8>, Seq<u8>)> {
    if b.len() == 0 {
        None
    } else if b[0] < 0xc0 {
        None
    } else if b[0] <= 0xf7 {
        let l = b[0] - 0xc0;
        if b.len() >= 1 + l {
            Some((b.subrange(1, 1 + l), b.subrange(1 + l, b.len() as int)))
        } else {
            None
        }
    } else {
        let ll = b[0] - 0xf7;
        if b.len() >= 1 + ll {
            let l = be_value(b.subrange(1, 1 + ll)) as int;
            if b.len() >= 1 + ll + l {
                Some((b.subrange(1 + ll, 1 + ll + l), b.subrange(1 + ll + l, b.len() as int)))
            } else {
                None
            }
        } else {
            None
        }
    }
}

/// Read a recipient field: the empty string is contract creation, twenty
/// bytes are an address, anything else is invalid.
pub open spec fn parse_addr_field(p: Seq<u8>) -> Option<Option<Seq<u8>>> {
    if p.len() == 0 {
        Some(None)
    } else if p.len() == 20 {
        Some(Some(p))
    } else {
        None
    }
}

/// Decode the list payload of a legacy transaction: nine string items.
pub open spec fn decode_legacy_payload(b: Seq<u8>) -> Option<TxView> {
    match parse_str_item(b) {
        None => None,
        Some((f_nonce, b1)) => match parse_str_item(b1) {
            None => None,
            Some((f_gas_price, b2)) => match parse_str_item(b2) {
                None => None,
                Some((f_gas, b3)) => match parse_str_item(b3) {
                    None => None,
                    Some((f_to, b4)) => match parse_str_item(b4) {
                        None => None,
                        Some((f_value, b5)) => match parse_str_item(b5) {
                            None => None,
                            Some((f_input, b6)) => match parse_str_item(b6) {
                                None => None,
                                Some((f_v, b7)) => match parse_str_item(b7) {
                                    None => None,
                                    Some((f_r, b8)) => match parse_str_item(b8) {
                                        None => None,
                                        Some((f_s, b9)) => if b9.len() != 0 {
                                            None
                                        } else {
                                            match parse_addr_field(f_to) {
                                                None => None,
                                                Some(to) => Some(
                                                    TxView {
                                                        transaction_type: None,
                                                        nonce: be_value(f_nonce),
                                                        gas_price: Some(be_value(f_gas_price)),
                                                        max_priority_fee_per_gas: None,
                                                        max_fee_per_gas: None,
                                                        gas_limit: be_value(f_gas),
                                                        to,
                                                        value: be_value(f_value),
                                                        input_data: f_input,
                                                        chain_id: None,
                                                        access_list: Seq::empty(),
                                                        v: be_value(f_v),
                                                        r: be_value(f_r),
                                                        s: be_value(f_s),
                                                    },
                                                ),
                                            }
                                        },
                                    },
                                },
                            },
                        },
                    },
                },
            },
        },
    }
}

/// Decode the list payload of an EIP-2930 transaction: seven string items,
/// the access list (supported only empty), then the three signature items.
pub open spec fn decode_eip2930_payload(b: Seq<u8>) -> Option<TxView> {
    match parse_str_item(b) {
        None => None,
        Some((f_chain, b1)) => match parse_str_item(b1) {
            None => None,
            Some((f_nonce, b2)) => match parse_str_item(b2) {
                None => None,
                Some((f_gas_price, b3)) => match parse_str_item(b3) {
                    None => None,
                    Some((f_gas, b4)) => match parse_str_item(b4) {
                        None => None,
                        Some((f_to, b5)) => match parse_str_item(b5) {
                            None => None,
                            Some((f_value, b6)) => match parse_str_item(b6) {
                                None => None,
                                Some((f_input, b7)) => match parse_list_item(b7) {
                                    None => None,
                                    Some((f_al, b8)) => if f_al.len() != 0 {
                                        None
                                    } else {
                                        match parse_str_item(b8) {
                                            None => None,
                                            Some((f_v, b9)) => match parse_str_item(b9) {
                                                None => None,
                                                Some((f_r, b10)) => match parse_str_item(b10) {
                                                    None => None,
                                                    Some((f_s, b11)) => if b11.len() != 0 {
                                                        None
                                                    } else {
                                                        match parse_addr_field(f_to) {
                                                            None => None,
                                                            Some(to) => Some(
                                                                TxView {
                                                                    transaction_type: Some(1),
                                                                    nonce: be_value(f_nonce),
                                                                    gas_price: Some(
                                                                        be_value(f_gas_price),
                                                                    ),
                                                                    max_priority_fee_per_gas: None,
                                                                    max_fee_per_gas: None,
                                                                    gas_limit: be_value(f_gas),
                                                                    to,
                                                                    value: be_value(f_value),
                                                                    input_data: f_input,
                                                                    chain_id: Some(
                                                                        be_value(f_chain),
                                                                    ),
                                                                    access_list: Seq::empty(),
                                                                    v: be_value(f_v),
                                                                    r: be_value(f_r),
                                                                    s: be_value(f_s),
                                                                },
                                                            ),
                                                        }
                                                    },
                                                },
                                            },
                                        }
                                    },
                                },
                            },
                        },
                    },
                },
            },
        },
    }
}

/// Decode the list payload of an EIP-1559 transaction: eight string items,
/// the access list (supported only empty), then the three signature items.
pub open spec fn decode_eip1559_payload(b: Seq<u8>) -> Option<TxView> {
    match parse_str_item(b) {
        None => None,
        Some((f_chain, b1)) => match parse_str_item(b1) {
            None => None,
            Some((f_nonce, b2)) => match parse_str_item(b2) {
                None => None,
                Some((f_prio, b3)) => match parse_str_item(b3) {
                    None => None,
                    Some((f_max, b4)) => match parse_str_item(b4) {
                        None => None,
                        Some((f_gas, b5)) => match parse_str_item(b5) {
                            None => None,
                            Some((f_to, b6)) => match parse_str_item(b6) {
                                None => None,
                                Some((f_value, b7)) => match parse_str_item(b7) {
                                    None => None,
                                    Some((f_input, b8)) => match parse_list_item(b8) {
                                        None => None,
                                        Some((f_al, b9)) => if f_al.len() != 0 {
                                            None
                                        } else {
                                            match parse_str_item(b9) {
                                                None => None,
                                                Some((f_v, b10)) => match parse_str_item(b10) {
                                                    None => None,
                                                    Some((f_r, b11)) => match parse_str_item(b11) {
                                                        None => None,
                                                        Some((f_s, b12)) => if b12.len() != 0 {
                                                            None
                                                        } else {
                                                            match parse_addr_field(f_to) {
                                                                None => None,
                                                                Some(to) => Some(
                                                                    TxView {
                                                                        transaction_type: Some(2),
                                                                        nonce: be_value(f_nonce),
                                                                        gas_price: None,
                                                                        max_priority_fee_per_gas:
                                                                            Some(be_value(f_prio)),
                                                                        max_fee_per_gas: Some(
                                                                            be_value(f_max),
                                                                        ),
                                                                        gas_limit: be_value(f_gas),
                                                                        to,
                                                                        value: be_value(f_value),
                                                                        input_data: f_input,
                                                                        chain_id: Some(
                                                                            be_value(f_chain),
                                                                        ),
                                                                        access_list: Seq::empty(),
                                                                        v: be_value(f_v),
                                                                        r: be_value(f_r),
                                                                        s: be_value(f_s),
                                                                    },
                                                                ),
                                                            }
                                                        },
                                                    },
                                                },
                                            }
                                        },
                                    },
                                },
                            },
                        },
                    },
                },
            },
        },
    }
}

/// Decode a full encoding: a type byte 1 or 2 followed by a list, or a
/// bare list for a legacy transaction.
pub open spec fn spec_decode(b: Seq<u8>) -> Option<TxView> {
    if b.len() == 0 {
        None
    } else if b[0] == 1 || b[0] == 2 {
        let body = b.subrange(1, b.len() as int);
        match parse_list_item(body) {
            None => None,
            Some((payload, rest)) => if rest.len() != 0 {
                None
            } else if b[0] == 1 {
                decode_eip2930_payload(payload)
            } else {
                decode_eip1559_payload(payload)
            },
        }
    } else if b[0] >= 0xc0 {
        match parse_list_item(b) {
            None => None,
            Some((payload, rest)) => if rest.len() != 0 {
                None
            } else {
                decode_legacy_payload(payload)
            },
        }
    } else {
        None
    }
}

/// A string encoding is at most nine bytes longer than its payload.
pub proof fn lemma_rlp_str_len(p: Seq<u8>)
    requires
        p.len() < 0x1_0000_0000_0000_0000,
    ensures
        rlp_str(p).len() <= 9 + p.len(),
{
    if p.len() == 1 && p[0] < 0x80 {
    } else if p.len() < 56 {
    } else {
        reveal_with_fuel(pow256, 9);
        assert(pow256(8) == 0x1_0000_0000_0000_0000);
        lemma_be_bytes_len(p.len() as nat, 8);
    }
}

/// Parsing a string item at the front of an encoding recovers the payload
/// and leaves the rest untouched.
pub proof fn lemma_parse_rlp_str(p: Seq<u8>, rest: Seq<u8>)
    requires
        p.len() < 0x1_0000_0000_0000_0000,
    ensures
        parse_str_item(rlp_str(p) + rest) == Some((p, rest)),
{
    let b = rlp_str(p) + rest;
    if p.len() == 1 && p[0] < 0x80 {
        assert(b[0] == p[0]);
        assert(seq![b[0]] =~= p);
        assert(b.subrange(1, b.len() as int) =~= rest);
    } else if p.len() < 56 {
        let hdr = (0x80 + p.len()) as u8;
        assert(rlp_str(p) == seq![hdr] + p);
        assert(b =~= seq![hdr] + (p + rest));
        assert(b[0] == hdr);
        assert(0x80 <= hdr && hdr <= 0xb7);
        assert(hdr - 0x80 == p.len());
        assert(b.len() == 1 + p.len() + rest.len());
        assert(b.subrange(1, 1 + p.len() as int) =~= p);
        assert(b.subrange(1 + p.len() as int, b.len() as int) =~= rest);
    } else {
        let lb = be_bytes_of(p.len() as nat);
        reveal_with_fuel(pow256, 9);
        assert(pow256(8) == 0x1_0000_0000_0000_0000);
        lemma_be_bytes_len(p.len() as nat, 8);
        assert(lb.len() >= 1);
        let ll = lb.len() as int;
        let hdr = (0xb7 + lb.len()) as u8;
        assert(rlp_str(p) == (seq![hdr] + lb) + p);
        assert(b =~= seq![hdr] + (lb + (p + rest)));
        assert(b[0] == hdr);
        assert(0xb7 < hdr && hdr <= 0xbf);
        assert(hdr - 0xb7 == ll);
        assert(b.len() == 1 + ll + p.len() + rest.len());
        assert(b.subrange(1, 1 + ll) =~= lb);
        lemma_be_value_of_be_bytes(p.len() as nat);
        assert(be_value(lb) == p.len());
        assert(b.subrange(1 + ll, 1 + ll + p.len() as int) =~= p);
        assert(b.subrange(1 + ll + p.len() as int, b.len() as int) =~= rest);
    }
}

/// Parsing a list item at the front of an encoding recovers the payload
/// and leaves the rest untouched.
pub proof fn lemma_parse_rlp_list(p: Seq<u8>, rest: Seq<u8>)
    requires
        p.len() < 0x1_0000_0000_0000_0000,
    ensures
        parse_list_item(rlp_list(p) + rest) == Some((p, rest)),
{
    let b = rlp_list(p) + rest;
    if p.len() < 56 {
        let hdr = (0xc0 + p.len()) as u8;
        assert(rlp_list(p) == seq![hdr] + p);
        assert(b =~= seq![hdr] + (p + rest));
        assert(b[0] == hdr);
        assert(0xc0 <= hdr && hdr <= 0xf7);
        assert(hdr - 0xc0 == p.len());
        assert(b.len() == 1 + p.len() + rest.len());
        assert(b.subrange(1, 1 + p.len() as int) =~= p);
        assert(b.subrange(1 + p.len() as int, b.len() as int) =~= rest);
    } else {
        let lb = be_bytes_of(p.len() as nat);
        reveal_with_fuel(pow256, 9);
        assert(pow256(8) == 0x1_0000_0000_0000_0000);
        lemma_be_bytes_len(p.len() as nat, 8);
        assert(lb.len() >= 1);
        let ll = lb.len() as int;
        let hdr = (0xf7 + lb.len()) as u8;
        assert(rlp_list(p) == (seq![hdr] + lb) + p);
        assert(b =~= seq![hdr] + (lb + (p + rest)));
        assert(b[0] == hdr);
        assert(0xf7 < hdr && hdr <= 0xff);
        assert(hdr - 0xf7 == ll);
        assert(b.len() == 1 + ll + p.len() + rest.len());
        assert(b.subrange(1, 1 + ll) =~= lb);
        lemma_be_value_of_be_bytes(p.len() as nat);
        assert(be_value(lb) == p.len());
        assert(b.subrange(1 + ll, 1 + ll + p.len() as int) =~= p);
        assert(b.subrange(1 + ll + p.len() as int, b.len() as int) =~= rest);
    }
}

/// Round trip for a legacy transaction: the encoding decodes back to the
/// record itself.
#[verifier::rlimit(100)]
#[verifier::spinoff_prover]
pub proof fn lemma_round_trip_legacy(t: TxView)
    requires
        canonical(t),
        t.transaction_type is None,
    ensures
        spec_encode(t) == Ok::<Seq<u8>, crate::tx::TxError>(rlp_list(legacy_payload(t))),
        spec_decode(rlp_list(legacy_payload(t))) == Some(t),
{
    reveal_with_fuel(pow256, 9);
    assert(pow256(8) == 0x1_0000_0000_0000_0000);
    let p1 = be_bytes_of(t.nonce);
    let p2 = be_bytes_of(or_zero(t.gas_price));
    let p3 = be_bytes_of(t.gas_limit);
    let p4 = addr_bytes(t.to);
    let p5 = be_bytes_of(t.value);
    let p6 = t.input_data;
    let p7 = be_bytes_of(t.v);
    let p8 = be_bytes_of(t.r);
    let p9 = be_bytes_of(t.s);
    lemma_be_bytes_len(t.nonce, 8);
    lemma_be_bytes_len(or_zero(t.gas_price), 8);
    lemma_be_bytes_len(t.gas_limit, 8);
    lemma_be_bytes_len(t.value, 32);
    lemma_be_bytes_len(t.v, 8);
    lemma_be_bytes_len(t.r, 32);
    lemma_be_bytes_len(t.s, 32);
    lemma_rlp_str_len(p1);
    lemma_rlp_str_len(p2);
    lemma_rlp_str_len(p3);
    lemma_rlp_str_len(p4);
    lemma_rlp_str_len(p5);
    lemma_rlp_str_len(p6);
    lemma_rlp_str_len(p7);
    lemma_rlp_str_len(p8);
    lemma_rlp_str_len(p9);
    let payload = legacy_payload(t);
    let r9 = rlp_str(p9);
    let r8 = rlp_str(p8) + r9;
    let r7 = rlp_str(p7) + r8;
    let r6 = rlp_str(p6) + r7;
    let r5 = rlp_str(p5) + r6;
    let r4 = rlp_str(p4) + r5;
    let r3 = rlp_str(p3) + r4;
    let r2 = rlp_str(p2) + r3;
    assert(payload =~= rlp_str(p1) + r2);
    lemma_parse_rlp_str(p1, r2);
    lemma_parse_rlp_str(p2, r3);
    lemma_parse_rlp_str(p3, r4);
    lemma_parse_rlp_str(p4, r5);
    lemma_parse_rlp_str(p5, r6);
    lemma_parse_rlp_str(p6, r7);
    lemma_parse_rlp_str(p7, r8);
    lemma_parse_rlp_str(p8, r9);
    lemma_parse_rlp_str(p9, Seq::<u8>::empty());
    assert(r9 =~= rlp_str(p9) + Seq::<u8>::empty());
    let enc = rlp_list(payload);
    lemma_parse_rlp_list(payload, Seq::<u8>::empty());
    assert(enc =~= rlp_list(payload) + Seq::<u8>::empty());
    lemma_rlp_list_head(payload);
    assert(parse_list_item(enc) == Some((payload, Seq::<u8>::empty())));
    lemma_be_value_of_be_bytes(t.nonce);
    lemma_be_value_of_be_bytes(or_zero(t.gas_price));
    lemma_be_value_of_be_bytes(t.gas_limit);
    lemma_be_value_of_be_bytes(t.value);
    lemma_be_value_of_be_bytes(t.v);
    lemma_be_value_of_be_bytes(t.r);
    lemma_be_value_of_be_bytes(t.s);
    let d = decode_legacy_payload(payload);
    assert(d is Some);
    assert(t.access_list =~= Seq::<AccessEntryView>::empty());
    assert(d.unwrap() =~= t);
}

/// Regroup a left-associated concatenation of eleven segments to the
/// right.
#[verifier::rlimit(100)]
#[verifier::spinoff_prover]
proof fn lemma_regroup11(
    e1: Seq<u8>,
    e2: Seq<u8>,
    e3: Seq<u8>,
    e4: Seq<u8>,
    e5: Seq<u8>,
    e6: Seq<u8>,
    e7: Seq<u8>,
    e8: Seq<u8>,
    e9: Seq<u8>,
    e10: Seq<u8>,
    e11: Seq<u8>,
)
    ensures
        e1 + e2 + e3 + e4 + e5 + e6 + e7 + e8 + e9 + e10 + e11 == e1 + (e2 + (e3 + (e4 + (e5 + (e6
            + (e7 + (e8 + (e9 + (e10 + e11))))))))),
{
    assert(e1 + e2 + e3 + e4 + e5 + e6 + e7 + e8 + e9 + e10 + e11 =~= e1 + (e2 + (e3 + (e4 + (e5
        + (e6 + (e7 + (e8 + (e9 + (e10 + e11))))))))));
}

/// Regroup a left-associated concatenation of twelve segments to the
/// right.
#[verifier::rlimit(100)]
#[verifier::spinoff_prover]
proof fn lemma_regroup12(
    e1: Seq<u8>,
    e2: Seq<u8>,
    e3: Seq<u8>,
    e4: Seq<u8>,
    e5: Seq<u8>,
    e6: Seq<u8>,
    e7: Seq<u8>,
    e8: Seq<u8>,
    e9: Seq<u8>,
    e10: Seq<u8>,
    e11: Seq<u8>,
    e12: Seq<u8>,
)
    ensures
        e1 + e2 + e3 + e4 + e5 + e6 + e7 + e8 + e9 + e10 + e11 + e12 == e1 + (e2 + (e3 + (e4 + (e5
            + (e6 + (e7 + (e8 + (e9 + (e10 + (e11 + e12)))))))))),
{
    assert(e1 + e2 + e3 + e4 + e5 + e6 + e7 + e8 + e9 + e10 + e11 + e12 =~= e1 + (e2 + (e3 + (e4
        + (e5 + (e6 + (e7 + (e8 + (e9 + (e10 + (e11 + e12)))))))))));
}

/// Round trip for an EIP-2930 transaction: the prefixed encoding decodes
/// back to the record itself.
#[verifier::rlimit(100)]
#[verifier::spinoff_prover]
pub proof fn lemma_round_trip_eip2930(t: TxView)
    requires
        canonical(t),
        t.transaction_type == Some(1nat),
    ensures
        spec_encode(t) == Ok::<Seq<u8>, crate::tx::TxError>(
            seq![1u8] + rlp_list(eip2930_payload(t)),
        ),
        spec_decode(seq![1u8] + rlp_list(eip2930_payload(t))) == Some(t),
{
    reveal_with_fuel(pow256, 9);
    assert(pow256(8) == 0x1_0000_0000_0000_0000);
    let p1 = be_bytes_of(or_zero(t.chain_id));
    let p2 = be_bytes_of(t.nonce);
    let p3 = be_bytes_of(or_zero(t.gas_price));
    let p4 = be_bytes_of(t.gas_limit);
    let p5 = addr_bytes(t.to);
    let p6 = be_bytes_of(t.value);
    let p7 = t.input_data;
    let p8 = be_bytes_of(t.v);
    let p9 = be_bytes_of(t.r);
    let p10 = be_bytes_of(t.s);
    lemma_be_bytes_len(or_zero(t.chain_id), 8);
    lemma_be_bytes_len(t.nonce, 8);
    lemma_be_bytes_len(or_zero(t.gas_price), 8);
    lemma_be_bytes_len(t.gas_limit, 8);
    lemma_be_bytes_len(t.value, 32);
    lemma_be_bytes_len(t.v, 8);
    lemma_be_bytes_len(t.r, 32);
    lemma_be_bytes_len(t.s, 32);
    lemma_rlp_str_len(p1);
    lemma_rlp_str_len(p2);
    lemma_rlp_str_len(p3);
    lemma_rlp_str_len(p4);
    lemma_rlp_str_len(p5);
    lemma_rlp_str_len(p6);
    lemma_rlp_str_len(p7);
    lemma_rlp_str_len(p8);
    lemma_rlp_str_len(p9);
    lemma_rlp_str_len(p10);
    let payload = eip2930_payload(t);
    let r10 = rlp_str(p10);
    let r9 = rlp_str(p9) + r10;
    let r8 = rlp_str(p8) + r9;
    let rl = rlp_list(Seq::empty()) + r8;
    let r7 = rlp_str(p7) + rl;
    let r6 = rlp_str(p6) + r7;
    let r5 = rlp_str(p5) + r6;
    let r4 = rlp_str(p4) + r5;
    let r3 = rlp_str(p3) + r4;
    let r2 = rlp_str(p2) + r3;
    assert(rlp_list(Seq::<u8>::empty()) =~= seq![0xc0u8]);
    lemma_regroup11(
        rlp_str(p1),
        rlp_str(p2),
        rlp_str(p3),
        rlp_str(p4),
        rlp_str(p5),
        rlp_str(p6),
        rlp_str(p7),
        rlp_list(Seq::<u8>::empty()),
        rlp_str(p8),
        rlp_str(p9),
        rlp_str(p10),
    );
    assert(payload == rlp_str(p1) + r2);
    lemma_parse_rlp_str(p1, r2);
    lemma_parse_rlp_str(p2, r3);
    lemma_parse_rlp_str(p3, r4);
    lemma_parse_rlp_str(p4, r5);
    lemma_parse_rlp_str(p5, r6);
    lemma_parse_rlp_str(p6, r7);
    lemma_parse_rlp_str(p7, rl);
    lemma_parse_rlp_list(Seq::<u8>::empty(), r8);
    lemma_parse_rlp_str(p8, r9);
    lemma_parse_rlp_str(p9, r10);
    lemma_parse_rlp_str(p10, Seq::<u8>::empty());
    assert(r10 =~= rlp_str(p10) + Seq::<u8>::empty());
    let body = rlp_list(payload);
    lemma_parse_rlp_list(payload, Seq::<u8>::empty());
    assert(body =~= rlp_list(payload) + Seq::<u8>::empty());
    let enc = seq![1u8] + body;
    assert(enc[0] == 1);
    assert(enc.subrange(1, enc.len() as int) =~= body);
    lemma_be_value_of_be_bytes(or_zero(t.chain_id));
    lemma_be_value_of_be_bytes(t.nonce);
    lemma_be_value_of_be_bytes(or_zero(t.gas_price));
    lemma_be_value_of_be_bytes(t.gas_limit);
    lemma_be_value_of_be_bytes(t.value);
    lemma_be_value_of_be_bytes(t.v);
    lemma_be_value_of_be_bytes(t.r);
    lemma_be_value_of_be_bytes(t.s);
    let d = decode_eip2930_payload(payload);
    assert(d is Some);
    assert(t.access_list =~= Seq::<AccessEntryView>::empty());
    assert(d.unwrap() =~= t);
}

/// Round trip for an EIP-1559 transaction: the prefixed encoding decodes
/// back to the record itself.
#[verifier::rlimit(100)]
#[verifier::spinoff_prover]
pub proof fn lemma_round_trip_eip1559(t: TxView)
    requires
        canonical(t),
        t.transaction_type == Some(2nat),
    ensures
        spec_encode(t) == Ok::<Seq<u8>, crate::tx::TxError>(
            seq![2u8] + rlp_list(eip1559_payload(t)),
        ),
        spec_decode(seq![2u8] + rlp_list(eip1559_payload(t))) == Some(t),
{
    reveal_with_fuel(pow256, 9);
    assert(pow256(8) == 0x1_0000_0000_0000_0000);
    let p1 = be_bytes_of(or_zero(t.chain_id));
    let p2 = be_bytes_of(t.nonce);
    let p3 = be_bytes_of(or_zero(t.max_priority_fee_per_gas));
    let p4 = be_bytes_of(or_zero(t.max_fee_per_gas));
    let p5 = be_bytes_of(t.gas_limit);
    let p6 = addr_bytes(t.to);
    let p7 = be_bytes_of(t.value);
    let p8 = t.input_data;
    let p9 = be_bytes_of(t.v);
    let p10 = be_bytes_of(t.r);
    let p11 = be_bytes_of(t.s);
    lemma_be_bytes_len(or_zero(t.chain_id), 8);
    lemma_be_bytes_len(t.nonce, 8);
    lemma_be_bytes_len(or_zero(t.max_priority_fee_per_gas), 8);
    lemma_be_bytes_len(or_zero(t.max_fee_per_gas), 8);
    lemma_be_bytes_len(t.gas_limit, 8);
    lemma_be_bytes_len(t.value, 32);
    lemma_be_bytes_len(t.v, 8);
    lemma_be_bytes_len(t.r, 32);
    lemma_be_bytes_len(t.s, 32);
    lemma_rlp_str_len(p1);
    lemma_rlp_str_len(p2);
    lemma_rlp_str_len(p3);
    lemma_rlp_str_len(p4);
    lemma_rlp_str_len(p5);
    lemma_rlp_str_len(p6);
    lemma_rlp_str_len(p7);
    lemma_rlp_str_len(p8);
    lemma_rlp_str_len(p9);
    lemma_rlp_str_len(p10);
    lemma_rlp_str_len(p11);
    let payload = eip1559_payload(t);
    let r11 = rlp_str(p11);
    let r10 = rlp_str(p10) + r11;
    let r9 = rlp_str(p9) + r10;
    let rl = rlp_list(Seq::empty()) + r9;
    let r8 = rlp_str(p8) + rl;
    let r7 = rlp_str(p7) + r8;
    let r6 = rlp_str(p6) + r7;
    let r5 = rlp_str(p5) + r6;
    let r4 = rlp_str(p4) + r5;
    let r3 = rlp_str(p3) + r4;
    let r2 = rlp_str(p2) + r3;
    assert(rlp_list(Seq::<u8>::empty()) =~= seq![0xc0u8]);
    lemma_regroup12(
        rlp_str(p1),
        rlp_str(p2),
        rlp_str(p3),
        rlp_str(p4),
        rlp_str(p5),
        rlp_str(p6),
        rlp_str(p7),
        rlp_str(p8),
        rlp_list(Seq::<u8>::empty()),
        rlp_str(p9),
        rlp_str(p10),
        rlp_str(p11),
    );
    assert(payload == rlp_str(p1) + r2);
    lemma_parse_rlp_str(p1, r2);
    lemma_parse_rlp_str(p2, r3);
    lemma_parse_rlp_str(p3, r4);
    lemma_parse_rlp_str(p4, r5);
    lemma_parse_rlp_str(p5, r6);
    lemma_parse_rlp_str(p6, r7);
    lemma_parse_rlp_str(p7, r8);
    lemma_parse_rlp_str(p8, rl);
    lemma_parse_rlp_list(Seq::<u8>::empty(), r9);
    lemma_parse_rlp_str(p9, r10);
    lemma_parse_rlp_str(p10, r11);
    lemma_parse_rlp_str(p11, Seq::<u8>::empty());
    assert(r11 =~= rlp_str(p11) + Seq::<u8>::empty());
    let body = rlp_list(payload);
    lemma_parse_rlp_list(payload, Seq::<u8>::empty());
    assert(body =~= rlp_list(payload) + Seq::<u8>::empty());
    let enc = seq![2u8] + body;
    assert(enc[0] == 2);
    assert(enc.subrange(1, enc.len() as int) =~= body);
    lemma_be_value_of_be_bytes(or_zero(t.chain_id));
    lemma_be_value_of_be_bytes(t.nonce);
    lemma_be_value_of_be_bytes(or_zero(t.max_priority_fee_per_gas));
    lemma_be_value_of_be_bytes(or_zero(t.max_fee_per_gas));
    lemma_be_value_of_be_bytes(t.gas_limit);
    lemma_be_value_of_be_bytes(t.value);
    lemma_be_value_of_be_bytes(t.v);
    lemma_be_value_of_be_bytes(t.r);
    lemma_be_value_of_be_bytes(t.s);
    let d = decode_eip1559_payload(payload);
    assert(d is Some);
    assert(t.access_list =~= Seq::<AccessEntryView>::empty());
    assert(d.unwrap() =~= t);
}

/// Law: for every well-formed record, encoding succeeds and decoding the
/// encoding per the RLP rules reproduces the record's fields exactly.
pub proof fn lemma_encode_decode(t: TxView)
    requires
        canonical(t),
    ensures
        spec_encode(t) is Ok,
        spec_decode(spec_encode(t).unwrap()) == Some(t),
{
    match t.transaction_type {
        None => lemma_round_trip_legacy(t),
        Some(k) => {
            if k == 1 {
                lemma_round_trip_eip2930(t);
            } else {
                lemma_round_trip_eip1559(t);
            }
        }
    }
}

/// Law: encoding is injective on well-formed records — two different
/// records, a changed `input_data` byte among them, never share an
/// encoding.
pub proof fn lemma_encode_injective(t1: TxView, t2: TxView)
    requires
        canonical(t1),
        canonical(t2),
        t1 != t2,
    ensures
        spec_encode(t1).unwrap() != spec_encode(t2).unwrap(),
{
    lemma_encode_decode(t1);
    lemma_encode_decode(t2);
    if spec_encode(t1).unwrap() == spec_encode(t2).unwrap() {
        assert(Some(t1) == Some(t2));
        assert(false);
    }
}

/// A list encoding is nonempty and starts with a byte at or above 0xc0.
pub proof fn lemma_rlp_list_head(p: Seq<u8>)
    requires
        p.len() < 0x1_0000_0000_0000_0000,
    ensures
        rlp_list(p).len() > 0,
        rlp_list(p)[0] >= 0xc0,
{
    if p.len() < 56 {
        let hdr = (0xc0 + p.len()) as u8;
        assert(rlp_list(p) == seq![hdr] + p);
        assert(rlp_list(p)[0] == hdr);
    } else {
        reveal_with_fuel(pow256, 9);
        assert(pow256(8) == 0x1_0000_0000_0000_0000);
        lemma_be_bytes_len(p.len() as nat, 8);
        let lb = be_bytes_of(p.len() as nat);
        assert(lb.len() >= 1);
        let hdr = (0xf7 + lb.len()) as u8;
        assert(rlp_list(p) == (seq![hdr] + lb) + p);
        assert(rlp_list(p) =~= seq![hdr] + (lb + p));
        assert(rlp_list(p)[0] == hdr);
    }
}

} // verus!
