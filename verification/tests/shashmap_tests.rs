use saito_core::crypto::try_derive_public_key;
use saito_core::shashmap::Shashmap;
use saito_core::slip::{Slip, SlipBroadcastType};
use saito_core::transaction::{Transaction, TransactionCore, TransactionType};

fn test_public_key() -> [u8; 33] {
    try_derive_public_key(&[1; 32]).unwrap()
}

fn empty_transaction() -> Transaction {
    Transaction::new(TransactionCore::new(
        0,
        vec![],
        vec![],
        vec![],
        TransactionType::Normal,
        [0; 64],
    ))
}

#[test]
fn shashmap_test() {
    let shashmap = Shashmap::new();
    let slip = Slip::new(test_public_key(), SlipBroadcastType::Normal, 0);
    assert!(shashmap.slip_block_id(&slip).is_none());
}

#[test]
fn shashmap_insert_test() {
    let mut shashmap = Shashmap::new();
    let slip = Slip::new(test_public_key(), SlipBroadcastType::Normal, 0);
    shashmap.insert(slip, 0);
    assert!(shashmap.slip_block_id(&slip).is_some());
}

#[test]
fn shashmap_insert_new_transaction_test() {
    let mut shashmap = Shashmap::new();
    let mut tx = empty_transaction();

    let output_slip = Slip::new(test_public_key(), SlipBroadcastType::Normal, 0);
    tx.add_output(output_slip);

    shashmap.insert_new_transaction(&tx);

    assert!(shashmap.slip_block_id(&output_slip).is_some());
    assert_eq!(shashmap.slip_block_id(&output_slip).unwrap(), &-1);
}

#[test]
fn shashmap_spend_transaction_test() {
    let mut shashmap = Shashmap::new();
    let mut tx = empty_transaction();

    let input_slip = Slip::new(test_public_key(), SlipBroadcastType::Normal, 0);
    tx.add_input(input_slip);

    shashmap.spend_transaction(&tx, 0);

    assert!(shashmap.slip_block_id(&input_slip).is_some());
    assert_eq!(shashmap.slip_block_id(&input_slip).unwrap(), &0);
}

#[test]
fn shashmap_unspend_transaction_test() {
    let mut shashmap = Shashmap::new();
    let mut tx = empty_transaction();

    let input_slip = Slip::new(test_public_key(), SlipBroadcastType::Normal, 0);
    tx.add_input(input_slip);

    shashmap.unspend_transaction(&tx);

    assert!(shashmap.slip_block_id(&input_slip).is_some());
    assert_eq!(shashmap.slip_block_id(&input_slip).unwrap(), &-1);
}

#[test]
fn shashmap_spend_slip_test() {
    let mut shashmap = Shashmap::new();

    let input_slip = Slip::new(test_public_key(), SlipBroadcastType::Normal, 0);
    shashmap.spend_slip(&input_slip, 0);

    assert!(shashmap.slip_block_id(&input_slip).is_some());
    assert_eq!(shashmap.slip_block_id(&input_slip).unwrap(), &0);
}

#[test]
fn shashmap_unspend_slip_test() {
    let mut shashmap = Shashmap::new();

    let input_slip = Slip::new(test_public_key(), SlipBroadcastType::Normal, 0);
    shashmap.unspend_slip(&input_slip);

    assert!(shashmap.slip_block_id(&input_slip).is_some());
    assert_eq!(shashmap.slip_block_id(&input_slip).unwrap(), &-1);
}

#[test]
fn shashmap_slip_block_id_test() {
    let mut shashmap = Shashmap::new();

    let slip = Slip::new(test_public_key(), SlipBroadcastType::Normal, 0);
    shashmap.insert(slip, 1);

    match shashmap.slip_block_id(&slip) {
        Some(id) => assert_eq!(id, &1),
        _ => assert!(false),
    }
}

#[test]
fn shashmap_absent_vs_unspent_test() {
    let mut shashmap = Shashmap::new();
    let registered = Slip::new(test_public_key(), SlipBroadcastType::Normal, 0);
    let never_registered = Slip::new(test_public_key(), SlipBroadcastType::Normal, 1);

    let mut tx = empty_transaction();
    tx.add_output(registered);
    shashmap.insert_new_transaction(&tx);

    assert_eq!(shashmap.slip_block_id(&registered), Some(&-1));
    assert_eq!(shashmap.slip_block_id(&never_registered), None);
}

#[test]
fn shashmap_insert_overwrite_test() {
    let mut shashmap = Shashmap::new();
    let slip = Slip::new(test_public_key(), SlipBroadcastType::Normal, 0);

    shashmap.insert(slip, 5);
    shashmap.insert(slip, 9);

    assert_eq!(shashmap.slip_block_id(&slip), Some(&9));
}

#[test]
fn shashmap_apply_then_rollback_test() {
    let mut shashmap = Shashmap::new();
    let pk = test_public_key();
    let input_a = Slip::new(pk, SlipBroadcastType::Normal, 0);
    let input_b = Slip::new(pk, SlipBroadcastType::Normal, 1);
    let output_c = Slip::new(pk, SlipBroadcastType::Normal, 2);

    let mut tx = empty_transaction();
    tx.add_input(input_a);
    tx.add_input(input_b);
    tx.add_output(output_c);

    shashmap.insert_new_transaction(&tx);
    assert_eq!(shashmap.slip_block_id(&output_c), Some(&-1));

    shashmap.spend_transaction(&tx, 7);
    assert_eq!(shashmap.slip_block_id(&input_a), Some(&7));
    assert_eq!(shashmap.slip_block_id(&input_b), Some(&7));

    shashmap.unspend_transaction(&tx);
    assert_eq!(shashmap.slip_block_id(&input_a), Some(&-1));
    assert_eq!(shashmap.slip_block_id(&input_b), Some(&-1));
    assert_eq!(shashmap.slip_block_id(&output_c), None);
}
