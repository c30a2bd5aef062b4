use txn_verifier::tx::{AccessEntry, TransactionRecord, TxError};
use txn_verifier::encode::encode;

fn be32(v: u128) -> [u8; 32] {
    let mut a = [0u8; 32];
    a[16..].copy_from_slice(&v.to_be_bytes());
    a
}

fn legacy_reference() -> TransactionRecord {
    TransactionRecord {
        transaction_type: None,
        nonce: 0,
        gas_price: Some(20_000_000_000),
        max_priority_fee_per_gas: None,
        max_fee_per_gas: None,
        gas_limit: 21_000,
        to: Some([0u8; 20]),
        value: be32(1_000_000_000_000_000_000),
        input_data: vec![],
        chain_id: None,
        access_list: vec![],
        v: 27,
        r: be32(1),
        s: be32(1),
    }
}

#[test]
fn legacy_known_encoding() {
    let enc = encode(&legacy_reference()).unwrap();
    let mut expected: Vec<u8> = vec![0xec, 0x80, 0x85, 0x04, 0xa8, 0x17, 0xc8, 0x00, 0x82, 0x52,
        0x08, 0x94];
    expected.extend(std::iter::repeat(0u8).take(20));
    expected.extend([0x88, 0x0d, 0xe0, 0xb6, 0xb3, 0xa7, 0x64, 0x00, 0x00, 0x80, 0x1b, 0x01,
        0x01]);
    assert_eq!(enc, expected);
}

#[test]
fn legacy_reference_decoder_round_trip() {
    let t = legacy_reference();
    let enc = encode(&t).unwrap();
    let r = rlp::Rlp::new(&enc);
    assert_eq!(r.item_count().unwrap(), 9);
    assert_eq!(r.val_at::<u64>(0).unwrap(), 0);
    assert_eq!(r.val_at::<u64>(1).unwrap(), 20_000_000_000);
    assert_eq!(r.val_at::<u64>(2).unwrap(), 21_000);
    assert_eq!(r.at(3).unwrap().data().unwrap(), &[0u8; 20]);
    assert_eq!(r.val_at::<u64>(4).unwrap(), 1_000_000_000_000_000_000);
    assert_eq!(r.at(5).unwrap().data().unwrap(), &[] as &[u8]);
    assert_eq!(r.val_at::<u64>(6).unwrap(), 27);
    assert_eq!(r.val_at::<u64>(7).unwrap(), 1);
    assert_eq!(r.val_at::<u64>(8).unwrap(), 1);
}

#[test]
fn eip1559_prefix_and_empty_access_list() {
    let mut t = legacy_reference();
    t.transaction_type = Some(2);
    t.chain_id = Some(1);
    t.gas_price = None;
    t.max_priority_fee_per_gas = Some(1_000_000_000);
    t.max_fee_per_gas = Some(30_000_000_000);
    let enc = encode(&t).unwrap();
    assert_eq!(enc[0], 0x02);
    let r = rlp::Rlp::new(&enc[1..]);
    assert_eq!(r.item_count().unwrap(), 12);
    assert_eq!(r.val_at::<u64>(0).unwrap(), 1);
    let access = r.at(8).unwrap();
    assert!(access.is_list());
    assert_eq!(access.item_count().unwrap(), 0);
    assert_eq!(access.as_raw(), &[0xc0]);
}

#[test]
fn eip1559_reference_decoder_round_trip() {
    let mut t = legacy_reference();
    t.transaction_type = Some(2);
    t.chain_id = Some(5);
    t.nonce = 7;
    t.gas_price = None;
    t.max_priority_fee_per_gas = Some(2);
    t.max_fee_per_gas = Some(88);
    t.input_data = vec![0xde, 0xad, 0xbe, 0xef];
    let enc = encode(&t).unwrap();
    assert_eq!(enc[0], 0x02);
    let r = rlp::Rlp::new(&enc[1..]);
    assert_eq!(r.item_count().unwrap(), 12);
    assert_eq!(r.val_at::<u64>(0).unwrap(), 5);
    assert_eq!(r.val_at::<u64>(1).unwrap(), 7);
    assert_eq!(r.val_at::<u64>(2).unwrap(), 2);
    assert_eq!(r.val_at::<u64>(3).unwrap(), 88);
    assert_eq!(r.val_at::<u64>(4).unwrap(), 21_000);
    assert_eq!(r.at(5).unwrap().data().unwrap(), &[0u8; 20]);
    assert_eq!(r.val_at::<u64>(6).unwrap(), 1_000_000_000_000_000_000);
    assert_eq!(r.at(7).unwrap().data().unwrap(), &[0xde, 0xad, 0xbe, 0xef]);
    assert_eq!(r.at(8).unwrap().item_count().unwrap(), 0);
    assert_eq!(r.val_at::<u64>(9).unwrap(), 27);
    assert_eq!(r.val_at::<u64>(10).unwrap(), 1);
    assert_eq!(r.val_at::<u64>(11).unwrap(), 1);
}

#[test]
fn eip2930_reference_decoder_round_trip() {
    let mut t = legacy_reference();
    t.transaction_type = Some(1);
    t.chain_id = Some(1);
    t.nonce = 3;
    let enc = encode(&t).unwrap();
    assert_eq!(enc[0], 0x01);
    let r = rlp::Rlp::new(&enc[1..]);
    assert_eq!(r.item_count().unwrap(), 11);
    assert_eq!(r.val_at::<u64>(0).unwrap(), 1);
    assert_eq!(r.val_at::<u64>(1).unwrap(), 3);
    assert_eq!(r.val_at::<u64>(2).unwrap(), 20_000_000_000);
    assert_eq!(r.val_at::<u64>(3).unwrap(), 21_000);
    assert_eq!(r.at(4).unwrap().data().unwrap(), &[0u8; 20]);
    assert_eq!(r.val_at::<u64>(5).unwrap(), 1_000_000_000_000_000_000);
    assert_eq!(r.at(6).unwrap().data().unwrap(), &[] as &[u8]);
    assert!(r.at(7).unwrap().is_list());
    assert_eq!(r.at(7).unwrap().item_count().unwrap(), 0);
    assert_eq!(r.val_at::<u64>(8).unwrap(), 27);
    assert_eq!(r.val_at::<u64>(9).unwrap(), 1);
    assert_eq!(r.val_at::<u64>(10).unwrap(), 1);
}

#[test]
fn contract_creation_encodes_empty_recipient() {
    let mut t = legacy_reference();
    t.to = None;
    let enc = encode(&t).unwrap();
    let r = rlp::Rlp::new(&enc);
    assert_eq!(r.item_count().unwrap(), 9);
    assert_eq!(r.at(3).unwrap().data().unwrap(), &[] as &[u8]);
}

#[test]
fn long_input_data_uses_long_string_header() {
    let mut t = legacy_reference();
    t.input_data = vec![0xab; 300];
    let enc = encode(&t).unwrap();
    let r = rlp::Rlp::new(&enc);
    assert_eq!(r.item_count().unwrap(), 9);
    assert_eq!(r.at(5).unwrap().data().unwrap(), vec![0xab; 300].as_slice());
}

#[test]
fn zero_and_full_width_quantities() {
    let mut t = legacy_reference();
    t.value = [0u8; 32];
    t.r = [0xff; 32];
    t.s = be32(0x7f);
    let enc = encode(&t).unwrap();
    let r = rlp::Rlp::new(&enc);
    // zero encodes as the empty string, not as a zero byte
    assert_eq!(r.at(4).unwrap().data().unwrap(), &[] as &[u8]);
    // a full-width quantity keeps all 32 bytes
    assert_eq!(r.at(7).unwrap().data().unwrap(), &[0xff; 32]);
    // a single byte below 0x80 encodes as itself
    assert_eq!(r.at(8).unwrap().as_raw(), &[0x7f]);
}

#[test]
fn unsupported_type_rejected() {
    let mut t = legacy_reference();
    t.transaction_type = Some(5);
    assert_eq!(encode(&t), Err(TxError::UnsupportedTransactionType));
}

#[test]
fn populated_access_list_rejected() {
    let mut t = legacy_reference();
    t.transaction_type = Some(1);
    t.chain_id = Some(1);
    t.access_list = vec![AccessEntry { address: [0x11; 20], storage_keys: vec![] }];
    assert_eq!(encode(&t), Err(TxError::UnsupportedAccessList));
}
