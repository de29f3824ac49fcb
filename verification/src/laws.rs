//! The fund-custody laws of the ledger, proved once and for all over the
//! operation contracts: any pair of states related by an operation's
//! contract — in particular the states produced by the executable
//! operations — obeys them.

use vstd::prelude::*;
use crate::ledger::EscrowLedger;
use crate::ledger::open_post;
use crate::ledger::resolve_post;
use crate::model::BountyError;
use crate::model::BountyState;
use crate::model::lemma_record_at;
use crate::model::record_index;

verus! {

/// Every live record is still awaiting resolution. A record only ever
/// reaches a terminal state in the same transition that destroys it, so a
/// ledger driven through the operations never holds one.
pub open spec fn all_records_open(l: EscrowLedger) -> bool {
    forall|i: int|
        0 <= i < l.records@.len() ==> (#[trigger] l.records@[i]).state == BountyState::Open
}

/// Opening an escrow never leaves a terminal record behind: the new record
/// starts out `Open` and the others are untouched.
pub proof fn lemma_open_keeps_records_open(
    l0: EscrowLedger,
    l1: EscrowLedger,
    id: Seq<u8>,
    amount: u64,
    depositor: u64,
    caller: u64,
    r: Result<(), BountyError>,
)
    requires
        l0.wf(),
        l1.wf(),
        all_records_open(l0),
        open_post(l0, l1, id, amount, depositor, caller, r),
    ensures
        all_records_open(l1),
{
    assert forall|i: int|
        0 <= i < l1.records@.len() implies (#[trigger] l1.records@[i]).state
        == BountyState::Open by {
        lemma_record_at(l1.records@, i);
        let idi = l1.records@[i].question_id@;
        if r is Ok && idi != id {
            assert(l1.has_bounty(idi));
            assert(l0.has_bounty(idi));
            let k = record_index(l0.records@, idi);
            assert(0 <= k < l0.records@.len() && l0.records@[k].question_id@ == idi);
            assert(l1.bounty(idi) == l0.bounty(idi));
            lemma_record_at(l0.records@, k);
        }
    }
}

/// Resolving an escrow never leaves a terminal record behind: the resolved
/// record is destroyed and the others are untouched.
pub proof fn lemma_resolve_keeps_records_open(
    l0: EscrowLedger,
    l1: EscrowLedger,
    id: Seq<u8>,
    caller: u64,
    winner: Option<u64>,
    r: Result<(), BountyError>,
)
    requires
        l0.wf(),
        l1.wf(),
        all_records_open(l0),
        resolve_post(l0, l1, id, caller, winner, r),
    ensures
        all_records_open(l1),
{
    assert forall|i: int|
        0 <= i < l1.records@.len() implies (#[trigger] l1.records@[i]).state
        == BountyState::Open by {
        lemma_record_at(l1.records@, i);
        let idi = l1.records@[i].question_id@;
        if r is Ok {
            assert(l1.has_bounty(idi));
            assert(idi != id);
            assert(l0.has_bounty(idi));
            let k = record_index(l0.records@, idi);
            assert(0 <= k < l0.records@.len() && l0.records@[k].question_id@ == idi);
            assert(l1.bounty(idi) == l0.bounty(idi));
            lemma_record_at(l0.records@, k);
        }
    }
}

/// Opening an escrow and immediately cancelling it restores the depositor's
/// balance exactly, touches nobody else's balance, frees the identifier, and
/// preserves the total value held.
pub proof fn lemma_open_then_cancel_restores(
    l0: EscrowLedger,
    l1: EscrowLedger,
    l2: EscrowLedger,
    id: Seq<u8>,
    amount: u64,
    depositor: u64,
    r2: Result<(), BountyError>,
)
    requires
        open_post(l0, l1, id, amount, depositor, depositor, Ok(())),
        resolve_post(l1, l2, id, depositor, None, r2),
    ensures
        r2 == Ok::<(), BountyError>(()),
        l2.balance_of(depositor) == l0.balance_of(depositor),
        !l2.has_bounty(id),
        forall|w: u64| w != depositor ==> #[trigger] l2.balance_of(w) == l0.balance_of(w),
        l2.total_value() == l0.total_value(),
{
}

/// Opening an escrow and then awarding it pays the winner exactly the
/// amount, costs the depositor exactly the amount (the storage deposit comes
/// back), touches nobody else's balance, frees the identifier, and preserves
/// the total value held.
pub proof fn lemma_open_then_award_pays_winner(
    l0: EscrowLedger,
    l1: EscrowLedger,
    l2: EscrowLedger,
    id: Seq<u8>,
    amount: u64,
    depositor: u64,
    winner: u64,
    r2: Result<(), BountyError>,
)
    requires
        open_post(l0, l1, id, amount, depositor, depositor, Ok(())),
        resolve_post(l1, l2, id, depositor, Some(winner), r2),
    ensures
        r2 == Ok::<(), BountyError>(()),
        !l2.has_bounty(id),
        winner != depositor ==> l2.balance_of(winner) == l0.balance_of(winner) + amount,
        winner != depositor ==> l2.balance_of(depositor) == l0.balance_of(depositor) - amount,
        winner == depositor ==> l2.balance_of(depositor) == l0.balance_of(depositor),
        forall|w: u64|
            w != depositor && w != winner ==> #[trigger] l2.balance_of(w) == l0.balance_of(w),
        l2.total_value() == l0.total_value(),
{
}

/// A resolution succeeds at most once per identifier: after one award or
/// cancellation has gone through, any further award or cancellation of the
/// same identifier fails with `EscrowNotFound` and changes nothing.
pub proof fn lemma_resolve_only_once(
    l0: EscrowLedger,
    l1: EscrowLedger,
    l2: EscrowLedger,
    id: Seq<u8>,
    caller1: u64,
    caller2: u64,
    winner1: Option<u64>,
    winner2: Option<u64>,
    r2: Result<(), BountyError>,
)
    requires
        resolve_post(l0, l1, id, caller1, winner1, Ok(())),
        resolve_post(l1, l2, id, caller2, winner2, r2),
    ensures
        r2 == Err::<(), BountyError>(BountyError::EscrowNotFound),
        l2 == l1,
{
}

/// Whatever state a record is in, an award or cancellation attempted by any
/// identity other than its depositor fails with `Unauthorized` and changes
/// nothing.
pub proof fn lemma_unauthorized_never_resolves(
    l0: EscrowLedger,
    l1: EscrowLedger,
    id: Seq<u8>,
    caller: u64,
    winner: Option<u64>,
    r: Result<(), BountyError>,
)
    requires
        l0.has_bounty(id),
        caller != l0.bounty(id).asker,
        resolve_post(l0, l1, id, caller, winner, r),
    ensures
        r == Err::<(), BountyError>(BountyError::Unauthorized),
        l1 == l0,
{
}

/// While a record exists under an identifier, opening another escrow under
/// the same identifier fails with `DuplicateEscrow` and changes nothing.
pub proof fn lemma_duplicate_id_rejected(
    l0: EscrowLedger,
    l1: EscrowLedger,
    id: Seq<u8>,
    amount: u64,
    depositor: u64,
    r: Result<(), BountyError>,
)
    requires
        l0.has_bounty(id),
        open_post(l0, l1, id, amount, depositor, depositor, r),
    ensures
        r == Err::<(), BountyError>(BountyError::DuplicateEscrow),
        l1 == l0,
{
}

/// Once a record is resolved, its identifier is free again: a new escrow can
/// be opened under it by any depositor who can cover the charge.
pub proof fn lemma_id_free_after_resolve(
    l0: EscrowLedger,
    l1: EscrowLedger,
    l2: EscrowLedger,
    id: Seq<u8>,
    caller: u64,
    winner: Option<u64>,
    amount: u64,
    depositor: u64,
    r2: Result<(), BountyError>,
)
    requires
        resolve_post(l0, l1, id, caller, winner, Ok(())),
        l1.balance_of(depositor) >= amount + l1.storage_deposit,
        open_post(l1, l2, id, amount, depositor, depositor, r2),
    ensures
        r2 == Ok::<(), BountyError>(()),
        l2.has_bounty(id),
        l2.bounty(id).asker == depositor,
        l2.bounty(id).bounty_amount == amount,
        l2.bounty(id).state == BountyState::Open,
{
}

} // verus!
