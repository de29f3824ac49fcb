//! The value-transfer backend and the deterministic addressing helpers.

use bounty_escrow::keys::bytes_eq;
use bounty_escrow::keys::compute_key;
use bounty_escrow::ledger::EscrowLedger;
use bounty_escrow::model::BountyError;

const ALICE: u64 = 1;
const BOB: u64 = 2;
const CAROL: u64 = 3;

#[test]
fn fund_creates_and_tops_up_accounts() {
    let mut l = EscrowLedger::new(5);
    assert_eq!(l.balance_of_account(ALICE), 0);
    assert!(l.fund(ALICE, 40));
    assert!(l.fund(ALICE, 2));
    assert!(l.fund(BOB, 8));
    assert_eq!(l.balance_of_account(ALICE), 42);
    assert_eq!(l.balance_of_account(BOB), 8);
    assert_eq!(l.total_value_held(), 50);
}

#[test]
fn fund_refuses_more_than_a_word_of_value() {
    let mut l = EscrowLedger::new(0);
    assert!(l.fund(ALICE, u64::MAX));
    assert!(!l.fund(BOB, 1));
    assert_eq!(l.balance_of_account(BOB), 0);
    assert_eq!(l.total_value_held(), u64::MAX);
}

#[test]
fn transfer_moves_value_between_identities() {
    let mut l = EscrowLedger::new(0);
    assert!(l.fund(ALICE, 100));
    assert_eq!(l.transfer(ALICE, BOB, 30), Ok(()));
    assert_eq!(l.balance_of_account(ALICE), 70);
    assert_eq!(l.balance_of_account(BOB), 30);
    assert_eq!(l.transfer(ALICE, CAROL, 71), Err(BountyError::InsufficientFunds));
    assert_eq!(l.balance_of_account(ALICE), 70);
    assert_eq!(l.transfer(ALICE, ALICE, 70), Ok(()));
    assert_eq!(l.balance_of_account(ALICE), 70);
    assert_eq!(l.total_value_held(), 100);
}

#[test]
fn transfer_from_unknown_identity_fails_unless_zero() {
    let mut l = EscrowLedger::new(0);
    assert_eq!(l.transfer(ALICE, BOB, 1), Err(BountyError::InsufficientFunds));
    assert_eq!(l.transfer(ALICE, BOB, 0), Ok(()));
}

#[test]
fn storage_keys_are_deterministic_and_checked() {
    let k1 = compute_key(b"q-uuid-123");
    let k2 = compute_key(b"q-uuid-123");
    let k3 = compute_key(b"q-uuid-124");
    assert_eq!(k1, k2);
    assert_ne!(k1, k3);

    let mut l = EscrowLedger::new(0);
    assert!(l.fund(ALICE, 10));
    assert_eq!(l.post_bounty(b"q-uuid-123".to_vec(), 10, ALICE, ALICE), Ok(()));
    let rec = l.get_record(b"q-uuid-123").unwrap();
    assert_eq!(rec.key_proof, k1);
    assert!(rec.key_proof_valid());
}

#[test]
fn byte_string_comparison() {
    assert!(bytes_eq(b"", b""));
    assert!(bytes_eq(b"abc", b"abc"));
    assert!(!bytes_eq(b"abc", b"abd"));
    assert!(!bytes_eq(b"abc", b"abcd"));
}

#[test]
fn distinct_records_custody_distinct_value() {
    let mut l = EscrowLedger::new(2);
    assert!(l.fund(ALICE, 100));
    assert!(l.fund(BOB, 100));
    assert_eq!(l.post_bounty(b"a".to_vec(), 10, ALICE, ALICE), Ok(()));
    assert_eq!(l.post_bounty(b"b".to_vec(), 20, BOB, BOB), Ok(()));
    assert_eq!(l.total_value_held(), 200);
    assert_eq!(l.award_bounty(b"a", BOB, ALICE), Ok(()));
    let rec_b = l.get_record(b"b").unwrap();
    assert_eq!(rec_b.bounty_amount, 20);
    assert_eq!(rec_b.asker, BOB);
    assert_eq!(l.balance_of_account(BOB), 100 - 20 - 2 + 10);
    assert_eq!(l.cancel_bounty(b"b", BOB), Ok(()));
    assert_eq!(l.balance_of_account(BOB), 100 + 10);
    assert_eq!(l.total_value_held(), 200);
}
