use saito_core::crypto::{hash, try_derive_public_key};
use saito_core::shashmap::Shashmap;
use saito_core::slip::{Slip, SlipBroadcastType};
use saito_core::time::create_timestamp;
use saito_core::transaction::{Transaction, TransactionCore, TransactionType};

fn signing_key() -> [u8; 32] {
    let mut key = [0u8; 32];
    key[31] = 1;
    key
}

fn signed_transaction() -> Transaction {
    let secret = signing_key();
    let pk = try_derive_public_key(&secret).unwrap();
    let input_a = Slip::new(pk, SlipBroadcastType::Normal, 0);
    let output_b = Slip::new(pk, SlipBroadcastType::Normal, 1);
    let core = TransactionCore::new(
        1000,
        vec![],
        vec![],
        b"hi".to_vec(),
        TransactionType::Normal,
        [0; 64],
    );
    let mut tx = Transaction::new(core);
    tx.add_input(input_a);
    tx.add_output(output_b);
    assert!(tx.try_sign(secret));
    tx
}

#[test]
fn transaction_core_default_test() {
    let timestamp = create_timestamp();
    let tx_core = TransactionCore::default();
    assert_eq!(tx_core.timestamp, timestamp);
    assert_eq!(tx_core.inputs, vec![]);
    assert_eq!(tx_core.outputs, vec![]);
    assert_eq!(tx_core.message, Vec::<u8>::new());
    assert_eq!(tx_core.transaction_type, TransactionType::Normal);
}

#[test]
fn transaction_core_new_test() {
    let timestamp = create_timestamp();
    let tx_core = TransactionCore::new(
        timestamp,
        vec![],
        vec![],
        vec![],
        TransactionType::Normal,
        [0; 64],
    );
    assert_eq!(tx_core.timestamp, timestamp);
    assert_eq!(tx_core.inputs, vec![]);
    assert_eq!(tx_core.outputs, vec![]);
    assert_eq!(tx_core.message, Vec::<u8>::new());
    assert_eq!(tx_core.transaction_type, TransactionType::Normal);
    assert_eq!(tx_core.signature, [0; 64]);
}

#[test]
fn transaction_default_test() {
    let timestamp = create_timestamp();
    let tx = Transaction::default();
    assert_eq!(tx.core.timestamp, timestamp);
    assert_eq!(tx.core.inputs, vec![]);
    assert_eq!(tx.core.outputs, vec![]);
    assert_eq!(tx.core.message, Vec::<u8>::new());
    assert_eq!(tx.core.transaction_type, TransactionType::Normal);
    assert_eq!(tx.core.signature, [0; 64]);
}

#[test]
fn transaction_new_test() {
    let timestamp = create_timestamp();
    let tx_core = TransactionCore::default();
    let tx = Transaction::new(tx_core);
    assert_eq!(tx.core.timestamp, timestamp);
    assert_eq!(tx.core.inputs, vec![]);
    assert_eq!(tx.core.outputs, vec![]);
    assert_eq!(tx.core.message, Vec::<u8>::new());
    assert_eq!(tx.core.transaction_type, TransactionType::Normal);
    assert_eq!(tx.core.signature, [0; 64]);
}

#[test]
fn sign_validate_round_trip_test() {
    let tx = signed_transaction();
    assert!(tx.validate());
}

#[test]
fn sign_is_deterministic_test() {
    let tx1 = signed_transaction();
    let tx2 = signed_transaction();
    assert_eq!(tx1.get_signature(), tx2.get_signature());
}

#[test]
fn tamper_timestamp_test() {
    let mut tx = signed_transaction();
    tx.set_timestamp(1001);
    assert!(!tx.validate());
}

#[test]
fn tamper_message_test() {
    let mut tx = signed_transaction();
    tx.set_message(b"hj".to_vec());
    assert!(!tx.validate());
}

#[test]
fn tamper_inputs_test() {
    let mut tx = signed_transaction();
    let pk = try_derive_public_key(&signing_key()).unwrap();
    tx.add_input(Slip::new(pk, SlipBroadcastType::Normal, 9));
    assert!(!tx.validate());
}

#[test]
fn tamper_outputs_test() {
    let mut tx = signed_transaction();
    let pk = try_derive_public_key(&signing_key()).unwrap();
    tx.add_output(Slip::new(pk, SlipBroadcastType::Normal, 9));
    assert!(!tx.validate());
}

#[test]
fn tamper_signature_test() {
    let mut tx = signed_transaction();
    let mut sig = tx.get_signature();
    sig[0] ^= 1;
    tx.set_signature(sig);
    assert!(!tx.validate());
}

#[test]
fn serialize_deterministic_test() {
    let tx = signed_transaction();
    assert_eq!(tx.serialize_for_signature(), tx.serialize_for_signature());
}

#[test]
fn serialize_order_sensitive_test() {
    let pk = try_derive_public_key(&signing_key()).unwrap();
    let slip_a = Slip::new(pk, SlipBroadcastType::Normal, 0);
    let slip_b = Slip::new(pk, SlipBroadcastType::Normal, 1);

    let mut tx_ab = Transaction::new(TransactionCore::new(
        5,
        vec![],
        vec![],
        vec![],
        TransactionType::Normal,
        [0; 64],
    ));
    tx_ab.add_input(slip_a);
    tx_ab.add_input(slip_b);

    let mut tx_ba = Transaction::new(TransactionCore::new(
        5,
        vec![],
        vec![],
        vec![],
        TransactionType::Normal,
        [0; 64],
    ));
    tx_ba.add_input(slip_b);
    tx_ba.add_input(slip_a);

    assert_ne!(tx_ab.serialize_for_signature(), tx_ba.serialize_for_signature());
}

#[test]
fn serialize_exact_bytes_test() {
    let mut pk = [0u8; 33];
    pk[0] = 2;
    let slip = Slip::new(pk, SlipBroadcastType::Normal, 3);
    let mut tx = Transaction::new(TransactionCore::new(
        1,
        vec![],
        vec![],
        vec![7],
        TransactionType::Normal,
        [0; 64],
    ));
    tx.add_input(slip);

    let mut expected: Vec<u8> = Vec::new();
    expected.extend_from_slice(&[0, 0, 0, 0, 0, 0, 0, 1]); // timestamp, 8 bytes big-endian
    expected.extend_from_slice(&pk); // the input slip: its owner key,
    expected.push(0); // its broadcast-type ordinal,
    expected.extend_from_slice(&[0, 0, 0, 0, 0, 0, 0, 3]); // and its amount big-endian
    expected.extend_from_slice(&[0, 0, 0, 0]); // type ordinal, 4 bytes big-endian
    expected.push(7); // raw message bytes, unframed

    assert_eq!(tx.serialize_for_signature(), expected);
}

#[test]
fn validate_no_inputs_fails_test() {
    let tx = Transaction::new(TransactionCore::new(
        1000,
        vec![],
        vec![],
        vec![],
        TransactionType::Normal,
        [0; 64],
    ));
    assert!(!tx.validate());
}

#[test]
fn validate_invalid_input_slip_test() {
    let secret = signing_key();
    let pk = try_derive_public_key(&secret).unwrap();
    let good = Slip::new(pk, SlipBroadcastType::Normal, 0);
    let zero_key_slip = Slip::new([0; 33], SlipBroadcastType::Normal, 1);
    let mut tx = Transaction::new(TransactionCore::new(
        1000,
        vec![],
        vec![],
        vec![],
        TransactionType::Normal,
        [0; 64],
    ));
    tx.add_input(good);
    tx.add_input(zero_key_slip);
    assert!(tx.try_sign(secret));
    assert!(!tx.validate());
}

#[test]
fn try_sign_rejects_unusable_key_test() {
    let mut tx = Transaction::new(TransactionCore::new(
        1000,
        vec![],
        vec![],
        vec![],
        TransactionType::Normal,
        [0; 64],
    ));
    assert!(!tx.try_sign([0; 32]));
    assert_eq!(tx.get_signature(), [0; 64]);
}

#[test]
fn try_derive_public_key_rejects_unusable_key_test() {
    assert!(try_derive_public_key(&[0; 32]).is_none());
    assert!(try_derive_public_key(&signing_key()).is_some());
}

#[test]
fn hash_is_sha256_test() {
    let digest = hash(&Vec::new());
    let expected: [u8; 32] = [
        0xe3, 0xb0, 0xc4, 0x42, 0x98, 0xfc, 0x1c, 0x14, 0x9a, 0xfb, 0xf4, 0xc8, 0x99, 0x6f, 0xb9,
        0x24, 0x27, 0xae, 0x41, 0xe4, 0x64, 0x9b, 0x93, 0x4c, 0xa4, 0x95, 0x99, 0x1b, 0x78, 0x52,
        0xb8, 0x55,
    ];
    assert_eq!(digest, expected);
}

#[test]
fn concrete_scenario_test() {
    let secret = signing_key();
    let pk = try_derive_public_key(&secret).unwrap();
    let input_a = Slip::new(pk, SlipBroadcastType::Normal, 0);
    let output_b = Slip::new(pk, SlipBroadcastType::Normal, 1);

    let core = TransactionCore::new(
        1000,
        vec![],
        vec![],
        b"hi".to_vec(),
        TransactionType::Normal,
        [0; 64],
    );
    let mut tx = Transaction::new(core);
    tx.add_input(input_a);
    tx.add_output(output_b);
    assert!(tx.try_sign(secret));
    assert!(tx.validate());

    let mut tampered = tx.clone();
    let mut sig = tampered.get_signature();
    sig[10] ^= 0x40;
    tampered.set_signature(sig);
    assert!(!tampered.validate());

    let mut shashmap = Shashmap::new();
    shashmap.insert_new_transaction(&tx);
    assert_eq!(shashmap.slip_block_id(&output_b), Some(&-1));
    shashmap.spend_transaction(&tx, 42);
    assert_eq!(shashmap.slip_block_id(&input_a), Some(&42));
    shashmap.unspend_transaction(&tx);
    assert_eq!(shashmap.slip_block_id(&input_a), Some(&-1));
    assert_eq!(shashmap.slip_block_id(&output_b), None);
}
