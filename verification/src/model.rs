//! Data model of the escrow ledger: identity accounts with balances, escrow
//! records, the state and error taxonomies, and the specification-level
//! functions and lemmas that describe lookups and value totals.

use vstd::prelude::*;
use crate::keys::derive_key;

verus! {

/// The lifecycle state of an escrow record. `Open` is the only state in which
/// a record holds custodied value; `Awarded` and `Cancelled` are terminal.
#[derive(Clone, Copy, Debug, PartialEq, Eq, Structural)]
pub enum BountyState {
    Open,
    Awarded,
    Cancelled,
}

/// Every way an operation on the ledger can fail. Each error aborts the
/// operation with no observable change to the ledger.
#[derive(Clone, Copy, Debug, PartialEq, Eq, Structural)]
pub enum BountyError {
    /// An `Open` record already exists under the requested question identifier.
    DuplicateEscrow,
    /// The depositor's available balance cannot cover the amount plus the
    /// storage deposit.
    InsufficientFunds,
    /// The party opening the escrow is not the verified caller.
    AuthorizationFailure,
    /// No record exists under the requested question identifier.
    EscrowNotFound,
    /// The record exists but is not in the `Open` state.
    EscrowNotOpen,
    /// The caller of a resolution is not the record's depositor.
    Unauthorized,
}

/// One identity's balance in the value-transfer backend.
#[derive(Clone, Copy, Debug, PartialEq, Eq, Structural)]
pub struct Account {
    /// The identity that owns the balance.
    pub owner: u64,
    /// The value units the identity can spend.
    pub balance: u64,
}

/// One escrow record: the unit of custody tracked per question identifier.
pub struct BountyAccount {
    /// The identity of the depositor who created and funded the record.
    pub asker: u64,
    /// The value unit count held in custody for the winner; fixed at creation.
    pub bounty_amount: u64,
    /// The caller-supplied identifier correlating this record to an external
    /// system; at most 64 bytes; part of the record's unique key.
    pub question_id: Vec<u8>,
    /// The record's lifecycle state.
    pub state: BountyState,
    /// The storage key derived from `question_id`, kept so the derivation can
    /// be re-checked cheaply on later accesses.
    pub key_proof: u64,
}

impl BountyAccount {
    /// A well-formed record: the identifier is within bounds and the stored
    /// key really is the one derived from the identifier.
    pub open spec fn wf(self) -> bool {
        &&& self.question_id@.len() <= 64
        &&& self.key_proof == derive_key(self.question_id@)
    }

    /// Re-checks the deterministic addressing: recomputes the storage key
    /// from the identifier and compares it with the stored proof.
    pub fn key_proof_valid(&self) -> (ok: bool)
        ensures
            ok == (self.key_proof == derive_key(self.question_id@)),
    {
        let k = crate::keys::compute_key(self.question_id.as_slice());
        k == self.key_proof
    }
}

// ---------------------------------------------------------------------------
// Account lookups
// ---------------------------------------------------------------------------

/// No two accounts share an owner.
pub open spec fn unique_owners(s: Seq<Account>) -> bool {
    forall|i: int, j: int| 0 <= i < j < s.len() ==> s[i].owner != s[j].owner
}

/// Some account in `s` belongs to `who`.
pub open spec fn has_account(s: Seq<Account>, who: u64) -> bool {
    exists|i: int| 0 <= i < s.len() && s[i].owner == who
}

/// The index of `who`'s account (meaningful only when `has_account` holds).
pub open spec fn account_index(s: Seq<Account>, who: u64) -> int {
    choose|i: int| 0 <= i < s.len() && s[i].owner == who
}

/// The balance `who` can spend; an identity without an account holds zero.
pub open spec fn balance_in(s: Seq<Account>, who: u64) -> int {
    if has_account(s, who) {
        s[account_index(s, who)].balance as int
    } else {
        0
    }
}

/// A balance is a machine word or zero, so it always lies in `[0, u64::MAX]`.
pub proof fn lemma_balance_in_bounds(s: Seq<Account>, who: u64)
    ensures
        0 <= balance_in(s, who) <= u64::MAX,
{
    if has_account(s, who) {
        let i = account_index(s, who);
        assert(0 <= i < s.len() && s[i].owner == who);
    }
}

/// With unique owners, any index holding `who` is the account the lookup
/// functions speak of.
pub proof fn lemma_account_at(s: Seq<Account>, i: int)
    requires
        unique_owners(s),
        0 <= i < s.len(),
    ensures
        has_account(s, s[i].owner),
        account_index(s, s[i].owner) == i,
        balance_in(s, s[i].owner) == s[i].balance,
{
    let who = s[i].owner;
    assert(has_account(s, who));
    let k = account_index(s, who);
    assert(0 <= k < s.len() && s[k].owner == who);
}

/// Replacing the balance at index `i` (same owner) changes that owner's
/// balance and nobody else's.
pub proof fn lemma_balance_update(s: Seq<Account>, i: int, a: Account)
    requires
        unique_owners(s),
        0 <= i < s.len(),
        a.owner == s[i].owner,
    ensures
        unique_owners(s.update(i, a)),
        balance_in(s.update(i, a), a.owner) == a.balance,
        forall|w: u64|
            w != a.owner ==> #[trigger] balance_in(s.update(i, a), w) == balance_in(s, w),
{
    let t = s.update(i, a);
    assert(forall|j: int| 0 <= j < s.len() ==> #[trigger] t[j].owner == s[j].owner);
    lemma_account_at(t, i);
    assert forall|w: u64| w != a.owner implies #[trigger] balance_in(t, w) == balance_in(s, w) by {
        if has_account(s, w) {
            let k = account_index(s, w);
            assert(0 <= k < s.len() && s[k].owner == w);
            assert(k != i);
            lemma_account_at(t, k);
        } else {
            if has_account(t, w) {
                let k = account_index(t, w);
                assert(0 <= k < t.len() && t[k].owner == w);
                assert(s[k].owner == w);
            }
        }
    }
}

/// Appending an account for a fresh owner gives that owner its balance and
/// leaves every other balance alone.
pub proof fn lemma_balance_push(s: Seq<Account>, a: Account)
    requires
        unique_owners(s),
        !has_account(s, a.owner),
    ensures
        unique_owners(s.push(a)),
        balance_in(s.push(a), a.owner) == a.balance,
        forall|w: u64| w != a.owner ==> #[trigger] balance_in(s.push(a), w) == balance_in(s, w),
{
    let t = s.push(a);
    assert(forall|j: int| 0 <= j < s.len() ==> #[trigger] t[j] == s[j]);
    assert(forall|j: int| 0 <= j < s.len() ==> s[j].owner != a.owner);
    assert(t[s.len() as int] == a);
    lemma_account_at(t, s.len() as int);
    assert forall|w: u64| w != a.owner implies #[trigger] balance_in(t, w) == balance_in(s, w) by {
        if has_account(s, w) {
            let k = account_index(s, w);
            assert(0 <= k < s.len() && s[k].owner == w);
            lemma_account_at(t, k);
        } else {
            if has_account(t, w) {
                let k = account_index(t, w);
                assert(0 <= k < t.len() && t[k].owner == w);
                assert(k != s.len() as int);
                assert(s[k].owner == w);
            }
        }
    }
}

// ---------------------------------------------------------------------------
// Balance totals
// ---------------------------------------------------------------------------

/// The total value sitting in identity accounts.
pub open spec fn sum_balances(s: Seq<Account>) -> int
    decreases s.len(),
{
    if s.len() == 0 {
        0
    } else {
        sum_balances(s.drop_last()) + s.last().balance
    }
}

/// A total of machine words is non-negative, and each account's balance is at
/// most the total.
pub proof fn lemma_balance_le_sum(s: Seq<Account>, i: int)
    requires
        0 <= i < s.len(),
    ensures
        s[i].balance <= sum_balances(s),
        sum_balances(s) >= 0,
    decreases s.len(),
{
    lemma_sum_balances_nonneg(s.drop_last());
    if i < s.len() - 1 {
        lemma_balance_le_sum(s.drop_last(), i);
    }
}

/// The total over identity accounts is never negative.
pub proof fn lemma_sum_balances_nonneg(s: Seq<Account>)
    ensures
        sum_balances(s) >= 0,
    decreases s.len(),
{
    if s.len() > 0 {
        lemma_sum_balances_nonneg(s.drop_last());
    }
}

/// Whatever an identity can spend is part of the total.
pub proof fn lemma_balance_in_le_sum(s: Seq<Account>, who: u64)
    ensures
        0 <= balance_in(s, who) <= sum_balances(s),
{
    lemma_sum_balances_nonneg(s);
    if has_account(s, who) {
        let k = account_index(s, who);
        assert(0 <= k < s.len() && s[k].owner == who);
        lemma_balance_le_sum(s, k);
    }
}

/// Replacing one account shifts the total by the difference of the balances.
pub proof fn lemma_sum_balances_update(s: Seq<Account>, i: int, a: Account)
    requires
        0 <= i < s.len(),
    ensures
        sum_balances(s.update(i, a)) == sum_balances(s) - s[i].balance + a.balance,
    decreases s.len(),
{
    let t = s.update(i, a);
    if i == s.len() - 1 {
        assert(t.drop_last() =~= s.drop_last());
        assert(t.last() == a);
    } else {
        assert(t.drop_last() =~= s.drop_last().update(i, a));
        assert(t.last() == s.last());
        lemma_sum_balances_update(s.drop_last(), i, a);
    }
}

/// Appending an account adds its balance to the total.
pub proof fn lemma_sum_balances_push(s: Seq<Account>, a: Account)
    ensures
        sum_balances(s.push(a)) == sum_balances(s) + a.balance,
{
    assert(s.push(a).drop_last() =~= s);
    assert(s.push(a).last() == a);
}

// ---------------------------------------------------------------------------
// Record lookups
// ---------------------------------------------------------------------------

/// No two records share a question identifier.
pub open spec fn unique_ids(s: Seq<BountyAccount>) -> bool {
    forall|i: int, j: int|
        0 <= i < j < s.len() ==> s[i].question_id@ != s[j].question_id@
}

/// Some record in `s` is keyed by `id`.
pub open spec fn has_record(s: Seq<BountyAccount>, id: Seq<u8>) -> bool {
    exists|i: int| 0 <= i < s.len() && s[i].question_id@ == id
}

/// The index of the record keyed by `id` (meaningful only when `has_record`
/// holds).
pub open spec fn record_index(s: Seq<BountyAccount>, id: Seq<u8>) -> int {
    choose|i: int| 0 <= i < s.len() && s[i].question_id@ == id
}

/// The record keyed by `id` (meaningful only when `has_record` holds).
pub open spec fn record_in(s: Seq<BountyAccount>, id: Seq<u8>) -> BountyAccount {
    s[record_index(s, id)]
}

/// With unique identifiers, any index keyed by `id` is the record the lookup
/// functions speak of.
pub proof fn lemma_record_at(s: Seq<BountyAccount>, i: int)
    requires
        unique_ids(s),
        0 <= i < s.len(),
    ensures
        has_record(s, s[i].question_id@),
        record_index(s, s[i].question_id@) == i,
        record_in(s, s[i].question_id@) == s[i],
{
    let id = s[i].question_id@;
    assert(has_record(s, id));
    let k = record_index(s, id);
    assert(0 <= k < s.len() && s[k].question_id@ == id);
}

/// Appending a record under a fresh identifier makes it the record for that
/// identifier and leaves every other identifier's record alone.
pub proof fn lemma_record_push(s: Seq<BountyAccount>, r: BountyAccount)
    requires
        unique_ids(s),
        !has_record(s, r.question_id@),
    ensures
        unique_ids(s.push(r)),
        has_record(s.push(r), r.question_id@),
        record_in(s.push(r), r.question_id@) == r,
        forall|id2: Seq<u8>|
            id2 != r.question_id@ ==> #[trigger] has_record(s.push(r), id2) == has_record(s, id2),
        forall|id2: Seq<u8>|
            id2 != r.question_id@ && has_record(s, id2)
                ==> #[trigger] record_in(s.push(r), id2) == record_in(s, id2),
{
    let t = s.push(r);
    assert(forall|j: int| 0 <= j < s.len() ==> #[trigger] t[j] == s[j]);
    assert(forall|j: int| 0 <= j < s.len() ==> s[j].question_id@ != r.question_id@);
    assert(t[s.len() as int] == r);
    lemma_record_at(t, s.len() as int);
    assert forall|id2: Seq<u8>| id2 != r.question_id@
        implies #[trigger] has_record(t, id2) == has_record(s, id2) by {
        if has_record(s, id2) {
            let k = record_index(s, id2);
            assert(t[k].question_id@ == id2);
        }
        if has_record(t, id2) {
            let k = record_index(t, id2);
            assert(0 <= k < t.len() && t[k].question_id@ == id2);
            assert(k != s.len() as int);
            assert(s[k].question_id@ == id2);
        }
    }
    assert forall|id2: Seq<u8>| id2 != r.question_id@ && has_record(s, id2)
        implies #[trigger] record_in(t, id2) == record_in(s, id2) by {
        let k = record_index(s, id2);
        assert(0 <= k < s.len() && s[k].question_id@ == id2);
        lemma_record_at(t, k);
    }
}

/// Removing the record at index `i` frees its identifier and leaves every
/// other identifier's record alone.
pub proof fn lemma_record_remove(s: Seq<BountyAccount>, i: int)
    requires
        unique_ids(s),
        0 <= i < s.len(),
    ensures
        unique_ids(s.remove(i)),
        !has_record(s.remove(i), s[i].question_id@),
        forall|id2: Seq<u8>|
            id2 != s[i].question_id@
                ==> #[trigger] has_record(s.remove(i), id2) == has_record(s, id2),
        forall|id2: Seq<u8>|
            id2 != s[i].question_id@ && has_record(s, id2)
                ==> #[trigger] record_in(s.remove(i), id2) == record_in(s, id2),
{
    let t = s.remove(i);
    assert(forall|j: int| 0 <= j < i ==> #[trigger] t[j] == s[j]);
    assert(forall|j: int| i <= j < t.len() ==> #[trigger] t[j] == s[j + 1]);
    assert forall|a: int, b: int| 0 <= a < b < t.len()
        implies t[a].question_id@ != t[b].question_id@ by {
        let a0: int = if a < i { a } else { a + 1 };
        let b0: int = if b < i { b } else { b + 1 };
        assert(t[a] == s[a0] && t[b] == s[b0]);
    }
    if has_record(t, s[i].question_id@) {
        let k = record_index(t, s[i].question_id@);
        assert(0 <= k < t.len() && t[k].question_id@ == s[i].question_id@);
        let k0: int = if k < i { k } else { k + 1 };
        assert(t[k] == s[k0]);
        assert(k0 != i);
        assert(false);
    }
    assert forall|id2: Seq<u8>| id2 != s[i].question_id@
        implies #[trigger] has_record(t, id2) == has_record(s, id2) by {
        if has_record(s, id2) {
            let k = record_index(s, id2);
            assert(0 <= k < s.len() && s[k].question_id@ == id2);
            assert(k != i);
            if k < i {
                assert(t[k].question_id@ == id2);
            } else {
                assert(t[k - 1] == s[k]);
            }
        }
        if has_record(t, id2) {
            let k = record_index(t, id2);
            assert(0 <= k < t.len() && t[k].question_id@ == id2);
            let k0: int = if k < i { k } else { k + 1 };
            assert(t[k] == s[k0]);
        }
    }
    assert forall|id2: Seq<u8>| id2 != s[i].question_id@ && has_record(s, id2)
        implies #[trigger] record_in(t, id2) == record_in(s, id2) by {
        let k = record_index(s, id2);
        assert(0 <= k < s.len() && s[k].question_id@ == id2);
        assert(k != i);
        let kt: int = if k < i { k } else { k - 1 };
        assert(t[kt] == s[k]);
        lemma_record_at(t, kt);
        lemma_record_at(s, k);
    }
}

// ---------------------------------------------------------------------------
// Custody totals
// ---------------------------------------------------------------------------

/// The total value held in custody by records: each record holds its amount
/// plus one storage deposit.
pub open spec fn sum_custody(s: Seq<BountyAccount>, deposit: u64) -> int
    decreases s.len(),
{
    if s.len() == 0 {
        0
    } else {
        sum_custody(s.drop_last(), deposit) + s.last().bounty_amount + deposit
    }
}

/// The custody total is never negative.
pub proof fn lemma_sum_custody_nonneg(s: Seq<BountyAccount>, deposit: u64)
    ensures
        sum_custody(s, deposit) >= 0,
    decreases s.len(),
{
    if s.len() > 0 {
        lemma_sum_custody_nonneg(s.drop_last(), deposit);
    }
}

/// Each record's custodied value is at most the custody total.
pub proof fn lemma_custody_le_sum(s: Seq<BountyAccount>, i: int, deposit: u64)
    requires
        0 <= i < s.len(),
    ensures
        s[i].bounty_amount + deposit <= sum_custody(s, deposit),
    decreases s.len(),
{
    lemma_sum_custody_nonneg(s.drop_last(), deposit);
    if i < s.len() - 1 {
        lemma_custody_le_sum(s.drop_last(), i, deposit);
    }
}

/// Appending a record adds its custodied value to the custody total.
pub proof fn lemma_sum_custody_push(s: Seq<BountyAccount>, r: BountyAccount, deposit: u64)
    ensures
        sum_custody(s.push(r), deposit) == sum_custody(s, deposit) + r.bounty_amount + deposit,
{
    assert(s.push(r).drop_last() =~= s);
    assert(s.push(r).last() == r);
}

/// Removing a record subtracts its custodied value from the custody total.
pub proof fn lemma_sum_custody_remove(s: Seq<BountyAccount>, i: int, deposit: u64)
    requires
        0 <= i < s.len(),
    ensures
        sum_custody(s.remove(i), deposit)
            == sum_custody(s, deposit) - s[i].bounty_amount - deposit,
    decreases s.len(),
{
    let t = s.remove(i);
    if i == s.len() - 1 {
        assert(t =~= s.drop_last());
    } else {
        assert(t.drop_last() =~= s.drop_last().remove(i));
        assert(t.last() == s.last());
        lemma_sum_custody_remove(s.drop_last(), i, deposit);
    }
}

} // verus!
