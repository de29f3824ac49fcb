//! End-to-end scenarios of the escrow lifecycle: open, award, cancel, and
//! the failures each operation owes its callers.

use bounty_escrow::keys::compute_key;
use bounty_escrow::ledger::EscrowLedger;
use bounty_escrow::model::BountyAccount;
use bounty_escrow::model::BountyError;
use bounty_escrow::model::BountyState;

const ALICE: u64 = 1;
const BOB: u64 = 2;
const CAROL: u64 = 3;

fn funded_ledger(deposit: u64, balance: u64) -> EscrowLedger {
    let mut l = EscrowLedger::new(deposit);
    assert!(l.fund(ALICE, balance));
    l
}

#[test]
fn open_then_award_pays_winner() {
    let mut l = funded_ledger(7, 2_000);
    let r = l.post_bounty(b"q-1".to_vec(), 1000, ALICE, ALICE);
    assert_eq!(r, Ok(()));
    assert_eq!(l.balance_of_account(ALICE), 2_000 - 1000 - 7);
    let rec = l.get_record(b"q-1").expect("record must exist after open");
    assert_eq!(rec.asker, ALICE);
    assert_eq!(rec.bounty_amount, 1000);
    assert_eq!(rec.state, BountyState::Open);
    assert_eq!(rec.question_id, b"q-1".to_vec());
    assert!(rec.key_proof_valid());
    assert_eq!(l.total_value_held(), 2_000);

    let r = l.award_bounty(b"q-1", BOB, ALICE);
    assert_eq!(r, Ok(()));
    assert_eq!(l.balance_of_account(BOB), 1000);
    assert_eq!(l.balance_of_account(ALICE), 2_000 - 1000);
    assert!(l.get_record(b"q-1").is_none());

    let r = l.cancel_bounty(b"q-1", ALICE);
    assert_eq!(r, Err(BountyError::EscrowNotFound));
}

#[test]
fn open_then_cancel_restores_depositor() {
    let mut l = funded_ledger(7, 900);
    let before = l.balance_of_account(ALICE);
    assert_eq!(l.post_bounty(b"refund-me".to_vec(), 300, ALICE, ALICE), Ok(()));
    assert_eq!(l.cancel_bounty(b"refund-me", ALICE), Ok(()));
    assert_eq!(l.balance_of_account(ALICE), before);
    assert!(l.get_record(b"refund-me").is_none());
    assert_eq!(l.total_value_held(), 900);
}

#[test]
fn cancel_by_stranger_is_unauthorized() {
    let mut l = funded_ledger(0, 500);
    assert_eq!(l.post_bounty(b"q-2".to_vec(), 500, ALICE, ALICE), Ok(()));
    let r = l.cancel_bounty(b"q-2", BOB);
    assert_eq!(r, Err(BountyError::Unauthorized));
    let rec = l.get_record(b"q-2").expect("failed cancel must not destroy the record");
    assert_eq!(rec.state, BountyState::Open);
    assert_eq!(rec.bounty_amount, 500);
    assert_eq!(l.balance_of_account(ALICE), 0);
    assert_eq!(l.total_value_held(), 500);
}

#[test]
fn award_by_stranger_is_unauthorized() {
    let mut l = funded_ledger(0, 500);
    assert_eq!(l.post_bounty(b"q-2b".to_vec(), 500, ALICE, ALICE), Ok(()));
    assert_eq!(l.award_bounty(b"q-2b", CAROL, BOB), Err(BountyError::Unauthorized));
    assert_eq!(l.get_record(b"q-2b").unwrap().state, BountyState::Open);
}

#[test]
fn zero_amount_escrow_awards_cleanly() {
    let mut l = funded_ledger(0, 100);
    assert_eq!(l.post_bounty(b"q-3".to_vec(), 0, ALICE, ALICE), Ok(()));
    assert_eq!(l.balance_of_account(ALICE), 100);
    let r = l.award_bounty(b"q-3", BOB, ALICE);
    assert_eq!(r, Ok(()));
    assert_eq!(l.balance_of_account(BOB), 0);
    assert_eq!(l.balance_of_account(ALICE), 100);
    assert!(l.get_record(b"q-3").is_none());
}

#[test]
fn second_resolution_finds_nothing() {
    let mut l = funded_ledger(3, 1_000);
    assert_eq!(l.post_bounty(b"once".to_vec(), 400, ALICE, ALICE), Ok(()));
    assert_eq!(l.award_bounty(b"once", BOB, ALICE), Ok(()));
    assert_eq!(l.award_bounty(b"once", BOB, ALICE), Err(BountyError::EscrowNotFound));
    assert_eq!(l.cancel_bounty(b"once", ALICE), Err(BountyError::EscrowNotFound));
    assert_eq!(l.balance_of_account(BOB), 400);
}

#[test]
fn duplicate_id_rejected_until_resolved() {
    let mut l = funded_ledger(0, 1_000);
    assert_eq!(l.post_bounty(b"dup".to_vec(), 100, ALICE, ALICE), Ok(()));
    assert_eq!(
        l.post_bounty(b"dup".to_vec(), 100, ALICE, ALICE),
        Err(BountyError::DuplicateEscrow)
    );
    assert!(l.fund(BOB, 50));
    assert_eq!(
        l.post_bounty(b"dup".to_vec(), 50, BOB, BOB),
        Err(BountyError::DuplicateEscrow)
    );
    assert_eq!(l.cancel_bounty(b"dup", ALICE), Ok(()));
    assert_eq!(l.post_bounty(b"dup".to_vec(), 50, BOB, BOB), Ok(()));
    let rec = l.get_record(b"dup").unwrap();
    assert_eq!(rec.asker, BOB);
    assert_eq!(rec.bounty_amount, 50);
}

#[test]
fn open_needs_amount_plus_storage_deposit() {
    let mut l = funded_ledger(10, 100);
    assert_eq!(
        l.post_bounty(b"poor".to_vec(), 100, ALICE, ALICE),
        Err(BountyError::InsufficientFunds)
    );
    assert_eq!(l.post_bounty(b"poor".to_vec(), 90, ALICE, ALICE), Ok(()));
    assert_eq!(l.balance_of_account(ALICE), 0);
}

#[test]
fn open_by_other_caller_is_authorization_failure() {
    let mut l = funded_ledger(0, 100);
    let r = l.post_bounty(b"notme".to_vec(), 10, ALICE, BOB);
    assert_eq!(r, Err(BountyError::AuthorizationFailure));
    assert!(l.get_record(b"notme").is_none());
    assert_eq!(l.balance_of_account(ALICE), 100);
}

#[test]
fn award_on_zero_amount_never_underflows() {
    let mut l = EscrowLedger::new(0);
    assert_eq!(l.post_bounty(b"empty".to_vec(), 0, ALICE, ALICE), Ok(()));
    assert_eq!(l.award_bounty(b"empty", BOB, ALICE), Ok(()));
    assert_eq!(l.total_value_held(), 0);
}

#[test]
fn resolving_terminal_record_is_not_open() {
    // A record can only sit in a terminal state if the surrounding store kept
    // it there; the ledger still refuses to resolve it.
    let record = BountyAccount {
        asker: ALICE,
        bounty_amount: 25,
        question_id: b"stale".to_vec(),
        state: BountyState::Awarded,
        key_proof: compute_key(b"stale"),
    };
    let mut l = EscrowLedger {
        accounts: Vec::new(),
        records: vec![record],
        storage_deposit: 0,
    };
    assert_eq!(l.award_bounty(b"stale", BOB, ALICE), Err(BountyError::EscrowNotOpen));
    assert_eq!(l.cancel_bounty(b"stale", ALICE), Err(BountyError::EscrowNotOpen));
    assert_eq!(l.get_record(b"stale").unwrap().state, BountyState::Awarded);
}
