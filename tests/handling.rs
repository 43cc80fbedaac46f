use base58::ToBase58;
use sola_indexer::handler::{
    find_account, plan_bytes, plan_in_transaction, plan_instruction, signature_signal, AccountKey,
    BadgeRow, ClassRow, ControlSignal, HandleError, Plan, StorageError,
};
use sola_indexer::payload::DecodeError;
use sola_indexer::store::{handle_instruction, MemoryStore};

const MINT_TAG: [u8; 8] = [242, 234, 237, 183, 232, 245, 146, 1];
const REGISTER_TAG: [u8; 8] = [211, 124, 67, 15, 211, 194, 178, 240];

fn put<T: borsh::BorshSerialize + ?Sized>(out: &mut Vec<u8>, v: &T) {
    out.extend(borsh::to_vec(v).unwrap());
}

fn register_data(class_id: u64, profile_id: u64) -> Vec<u8> {
    let mut out = REGISTER_TAG.to_vec();
    put(&mut out, &class_id);
    put(&mut out, &profile_id);
    put(&mut out, &true);
    put(&mut out, &true);
    put(&mut out, &false);
    put(&mut out, &[5u8; 32]);
    put(&mut out, "s");
    out
}

fn mint_data(badge_id: u64, class_id: u64) -> Vec<u8> {
    let mut out = MINT_TAG.to_vec();
    put(&mut out, &badge_id);
    put(&mut out, &class_id);
    put(&mut out, &vec![1u64]);
    put(&mut out, "n");
    put(&mut out, &Vec::<([u8; 32], u8)>::new());
    put(&mut out, &250u16);
    put(&mut out, "S");
    put(&mut out, "u");
    put(&mut out, &false);
    put(&mut out, &3u64);
    put(&mut out, "");
    out
}

fn key(name: &str, signer: bool, writable: bool) -> AccountKey {
    AccountKey { pubkey: name.to_string(), signer, writable }
}

fn accounts() -> Vec<AccountKey> {
    vec![
        key("Fee", false, true),
        key("Pub2", true, true),
        key("Prog", false, false),
        key("Pub1", true, false),
    ]
}

#[test]
fn mint_badge_publisher_is_signer_not_writable() {
    let mut store = MemoryStore::new();
    let accs = accounts();
    assert_eq!(handle_instruction(&mut store, &register_data(7, 1).to_base58(), &accs), ControlSignal::Continue);
    assert_eq!(plan_instruction(&mint_data(100, 7).to_base58(), &accs),
        Plan::InsertBadge(BadgeRow { id: 100, class_id: 7, publisher: "Pub1".to_string() }));
    assert_eq!(handle_instruction(&mut store, &mint_data(100, 7).to_base58(), &accs), ControlSignal::Continue);
    assert!(store.contains_badge(100));
}

#[test]
fn register_register_is_signer_and_writable() {
    let mut store = MemoryStore::new();
    let accs = accounts();
    assert_eq!(plan_instruction(&register_data(7, 42).to_base58(), &accs),
        Plan::InsertClass(ClassRow { id: 7, controller_id: 42, register: "Pub2".to_string() }));
    assert_eq!(handle_instruction(&mut store, &register_data(7, 42).to_base58(), &accs), ControlSignal::Continue);
    assert!(store.contains_class(7));
}

#[test]
fn first_account_with_role_is_chosen() {
    let accs = vec![key("A", true, false), key("B", true, false)];
    assert_eq!(find_account(&accs, true, false), Some(0));
    assert_eq!(find_account(&accs, true, true), None);
}

#[test]
fn missing_role_account_aborts() {
    let accs = vec![key("A", false, false)];
    assert_eq!(plan_bytes(&mint_data(1, 1), &accs), Plan::Abort(HandleError::MissingAccount));
    assert_eq!(plan_bytes(&register_data(1, 1), &accs), Plan::Abort(HandleError::MissingAccount));
}

#[test]
fn failed_transaction_skips_every_instruction() {
    let accs = accounts();
    assert_eq!(signature_signal(true), ControlSignal::Skip);
    assert_eq!(signature_signal(false), ControlSignal::Continue);
    let mut bad = MINT_TAG.to_vec();
    bad.push(0);
    for data in [mint_data(1, 1), register_data(1, 1), bad] {
        assert_eq!(plan_in_transaction(true, &data.to_base58(), &accs), Plan::Skip);
    }
    assert_eq!(plan_in_transaction(false, &register_data(3, 4).to_base58(), &accs),
        Plan::InsertClass(ClassRow { id: 3, controller_id: 4, register: "Pub2".to_string() }));
}

#[test]
fn orphan_badge_aborts() {
    let mut store = MemoryStore::new();
    let accs = accounts();
    assert_eq!(handle_instruction(&mut store, &mint_data(100, 9).to_base58(), &accs),
        ControlSignal::Abort(HandleError::Storage(StorageError::MissingClass)));
    assert!(!store.contains_badge(100));
}

#[test]
fn duplicate_badge_is_rejected() {
    let mut store = MemoryStore::new();
    let accs = accounts();
    assert_eq!(handle_instruction(&mut store, &register_data(7, 1).to_base58(), &accs), ControlSignal::Continue);
    let text = mint_data(100, 7).to_base58();
    assert_eq!(handle_instruction(&mut store, &text, &accs), ControlSignal::Continue);
    assert_eq!(handle_instruction(&mut store, &text, &accs),
        ControlSignal::Abort(HandleError::Storage(StorageError::DuplicateKey)));
}

#[test]
fn duplicate_class_is_rejected() {
    let mut store = MemoryStore::new();
    let accs = accounts();
    let text = register_data(7, 1).to_base58();
    assert_eq!(handle_instruction(&mut store, &text, &accs), ControlSignal::Continue);
    assert_eq!(handle_instruction(&mut store, &text, &accs),
        ControlSignal::Abort(HandleError::Storage(StorageError::DuplicateKey)));
}

#[test]
fn non_base58_text_is_skipped() {
    let mut store = MemoryStore::new();
    assert_eq!(plan_instruction("0OIl", &accounts()), Plan::Skip);
    assert_eq!(handle_instruction(&mut store, "not base58!", &accounts()), ControlSignal::Skip);
}

#[test]
fn unknown_discriminator_is_skipped() {
    let data = vec![0u8; 20];
    assert_eq!(plan_instruction(&data.to_base58(), &accounts()), Plan::Skip);
    assert_eq!(plan_instruction(&vec![1u8, 2, 3].to_base58(), &accounts()), Plan::Skip);
}

#[test]
fn malformed_known_payload_aborts() {
    let mut data = MINT_TAG.to_vec();
    data.extend([1u8, 2, 3]);
    assert_eq!(plan_instruction(&data.to_base58(), &accounts()),
        Plan::Abort(HandleError::Decode(DecodeError::InvalidData)));
    let mut store = MemoryStore::new();
    assert_eq!(handle_instruction(&mut store, &data.to_base58(), &accounts()),
        ControlSignal::Abort(HandleError::Decode(DecodeError::InvalidData)));
}

#[test]
fn direct_inserts_follow_keys() {
    let mut store = MemoryStore::new();
    assert_eq!(store.insert_badge(BadgeRow { id: 1, class_id: 2, publisher: "p".to_string() }),
        Err(StorageError::MissingClass));
    assert_eq!(store.insert_class(ClassRow { id: 2, controller_id: 0, register: "r".to_string() }),
        Ok(()));
    assert_eq!(store.insert_badge(BadgeRow { id: 1, class_id: 2, publisher: "p".to_string() }),
        Ok(()));
    assert_eq!(store.insert_badge(BadgeRow { id: 1, class_id: 2, publisher: "q".to_string() }),
        Err(StorageError::DuplicateKey));
}

#[test]
fn long_text_of_leading_ones_is_skipped() {
    let text = "1".repeat(200);
    assert_eq!(plan_instruction(&text, &accounts()), Plan::Skip);
    let mut store = MemoryStore::new();
    assert_eq!(handle_instruction(&mut store, &text, &accounts()), ControlSignal::Skip);
}
