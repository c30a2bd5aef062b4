use txn_verifier::tx::{address_from_bytes, hash_from_bytes, TransactionRecord, TxError};
use txn_verifier::encode::encode;
use txn_verifier::hash::digest;
use txn_verifier::verify::{encode_and_digest, verify_fields, verify_hash, FieldClaim};

fn quantity(v: u128) -> [u8; 32] {
    let mut a = [0u8; 32];
    a[16..].copy_from_slice(&v.to_be_bytes());
    a
}

fn sample_tx() -> TransactionRecord {
    TransactionRecord {
        transaction_type: None,
        nonce: 9,
        gas_price: Some(7_000_000_000),
        max_priority_fee_per_gas: None,
        max_fee_per_gas: None,
        gas_limit: 60_000,
        to: Some([0x42; 20]),
        value: quantity(123_456_789),
        input_data: vec![1, 2, 3, 4, 5],
        chain_id: None,
        access_list: vec![],
        v: 28,
        r: quantity(0xdeadbeef),
        s: quantity(0xcafebabe),
    }
}

#[test]
fn digest_deterministic() {
    let b = vec![0x00, 0x01, 0xfe, 0xff, 0x80];
    assert_eq!(digest(&b), digest(&b));
}

#[test]
fn digest_of_empty_input_matches_keccak_reference() {
    // The published Keccak-256 digest of the empty string; SHA3-256 with
    // its different padding gives another value, so this pins the variant.
    let expected: [u8; 32] = [0xc5, 0xd2, 0x46, 0x01, 0x86, 0xf7, 0x23, 0x3c, 0x92, 0x7e, 0x7d,
        0xb2, 0xdc, 0xc7, 0x03, 0xc0, 0xe5, 0x00, 0xb6, 0x53, 0xca, 0x82, 0x27, 0x3b, 0x7b, 0xfa,
        0xd8, 0x04, 0x5d, 0x85, 0xa4, 0x70];
    assert_eq!(digest(&vec![]), expected);
}

#[test]
fn single_byte_flip_changes_digest() {
    let t = sample_tx();
    let mut t2 = sample_tx();
    t2.input_data[2] = 0x99;
    let enc1 = encode(&t).unwrap();
    let enc2 = encode(&t2).unwrap();
    assert_ne!(enc1, enc2);
    assert_ne!(digest(&enc1), digest(&enc2));
}

#[test]
fn verify_accepts_correct_hash_and_rejects_flipped_hash() {
    let t = sample_tx();
    let (_enc, h) = encode_and_digest(&t).unwrap();
    assert_eq!(verify_hash(&t, &h), Ok(true));
    let mut flipped = h;
    flipped[0] ^= 0x01;
    assert_eq!(verify_hash(&t, &flipped), Ok(false));
}

#[test]
fn verify_propagates_encoding_error() {
    let mut t = sample_tx();
    t.transaction_type = Some(3);
    let claim = [0u8; 32];
    assert_eq!(verify_hash(&t, &claim), Err(TxError::UnsupportedTransactionType));
}

#[test]
fn field_mode_compares_all_fields() {
    let a = FieldClaim { from: [1; 20], to: [2; 20], amount: quantity(500) };
    let same = FieldClaim { from: [1; 20], to: [2; 20], amount: quantity(500) };
    let other_amount = FieldClaim { from: [1; 20], to: [2; 20], amount: quantity(501) };
    let other_to = FieldClaim { from: [1; 20], to: [3; 20], amount: quantity(500) };
    assert!(verify_fields(&a, &same));
    assert!(!verify_fields(&a, &other_amount));
    assert!(!verify_fields(&a, &other_to));
}

#[test]
fn malformed_address_rejected() {
    assert_eq!(address_from_bytes(&vec![0u8; 19]), Err(TxError::MalformedAddress));
    assert_eq!(address_from_bytes(&vec![0u8; 21]), Err(TxError::MalformedAddress));
    assert_eq!(address_from_bytes(&vec![0x11; 20]), Ok([0x11; 20]));
}

#[test]
fn malformed_hash_rejected() {
    assert_eq!(hash_from_bytes(&vec![0u8; 31]), Err(TxError::MalformedHash));
    assert_eq!(hash_from_bytes(&vec![0u8; 33]), Err(TxError::MalformedHash));
    assert_eq!(hash_from_bytes(&vec![0x22; 32]), Ok([0x22; 32]));
}

#[test]
fn error_descriptions_are_distinct() {
    let kinds = [TxError::UnsupportedTransactionType, TxError::UnsupportedAccessList,
        TxError::MalformedAddress, TxError::MalformedHash];
    for (i, a) in kinds.iter().enumerate() {
        assert!(!a.describe().is_empty());
        for b in kinds.iter().skip(i + 1) {
            assert_ne!(a.describe(), b.describe());
        }
    }
}
