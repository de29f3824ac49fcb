//! The escrow ledger and its three operations. `post_bounty` creates and
//! funds a record, `award_bounty` pays the custodied amount to a designated
//! winner, and `cancel_bounty` refunds it to the depositor. The two
//! resolutions share one routine; every operation either commits in full or
//! leaves the ledger untouched, and all of them preserve the total value held.

use vstd::prelude::*;
use vstd::pervasive::VecAdditionalExecFns;
use crate::keys::bytes_eq;
use crate::keys::compute_key;
use crate::keys::derive_key;
use crate::model::Account;
use crate::model::BountyAccount;
use crate::model::BountyError;
use crate::model::BountyState;
use crate::model::balance_in;
use crate::model::has_account;
use crate::model::has_record;
use crate::model::lemma_account_at;
use crate::model::lemma_balance_in_bounds;
use crate::model::lemma_balance_in_le_sum;
use crate::model::lemma_balance_push;
use crate::model::lemma_balance_update;
use crate::model::lemma_custody_le_sum;
use crate::model::lemma_record_at;
use crate::model::lemma_record_push;
use crate::model::lemma_record_remove;
use crate::model::lemma_sum_balances_nonneg;
use crate::model::lemma_sum_balances_push;
use crate::model::lemma_sum_balances_update;
use crate::model::lemma_sum_custody_nonneg;
use crate::model::lemma_sum_custody_push;
use crate::model::lemma_sum_custody_remove;
use crate::model::record_in;
use crate::model::sum_balances;
use crate::model::sum_custody;
use crate::model::unique_ids;
use crate::model::unique_owners;

verus! {

/// The escrow ledger: identity accounts in the value-transfer backend, the
/// live escrow records, and the storage deposit the backend charges for
/// keeping one record.
pub struct EscrowLedger {
    /// The balances of all identities known to the backend.
    pub accounts: Vec<Account>,
    /// The live escrow records, at most one per question identifier.
    pub records: Vec<BountyAccount>,
    /// The refundable storage cost charged when a record is created and
    /// returned to the depositor when it is destroyed.
    pub storage_deposit: u64,
}

impl EscrowLedger {
    /// Well-formedness: owners and question identifiers are unique, every
    /// record carries its derived key, and the total value held fits in a
    /// machine word (so no credit can overflow).
    pub open spec fn wf(self) -> bool {
        &&& unique_owners(self.accounts@)
        &&& unique_ids(self.records@)
        &&& forall|i: int| 0 <= i < self.records@.len() ==> (#[trigger] self.records@[i]).wf()
        &&& sum_balances(self.accounts@) + sum_custody(self.records@, self.storage_deposit)
            <= u64::MAX
    }

    /// The balance the backend holds for `who`; zero for an unknown identity.
    pub open spec fn balance_of(self, who: u64) -> int {
        balance_in(self.accounts@, who)
    }

    /// Whether a record exists under `id`.
    pub open spec fn has_bounty(self, id: Seq<u8>) -> bool {
        has_record(self.records@, id)
    }

    /// The record under `id` (meaningful only when `has_bounty` holds).
    pub open spec fn bounty(self, id: Seq<u8>) -> BountyAccount {
        record_in(self.records@, id)
    }

    /// Everything of value the ledger knows about: spendable balances plus
    /// what the records hold in custody.
    pub open spec fn total_value(self) -> int {
        sum_balances(self.accounts@) + sum_custody(self.records@, self.storage_deposit)
    }
}

/// No identifier except `id` gains, loses or changes its record between `pre`
/// and `post`.
pub open spec fn records_unchanged_except(pre: EscrowLedger, post: EscrowLedger, id: Seq<u8>) -> bool {
    &&& forall|id2: Seq<u8>|
        id2 != id ==> #[trigger] post.has_bounty(id2) == pre.has_bounty(id2)
    &&& forall|id2: Seq<u8>|
        id2 != id && pre.has_bounty(id2) ==> #[trigger] post.bounty(id2) == pre.bounty(id2)
}

/// No identity except `who` sees its balance change between `pre` and `post`.
pub open spec fn balances_unchanged_except(pre: EscrowLedger, post: EscrowLedger, who: u64) -> bool {
    forall|w: u64| w != who ==> #[trigger] post.balance_of(w) == pre.balance_of(w)
}

/// What a successful `post_bounty` does: the depositor pays the amount plus
/// the storage deposit, and a fresh `Open` record custodies them.
pub open spec fn open_ok(
    pre: EscrowLedger,
    post: EscrowLedger,
    id: Seq<u8>,
    amount: u64,
    depositor: u64,
) -> bool {
    let rec = post.bounty(id);
    &&& post.storage_deposit == pre.storage_deposit
    &&& post.has_bounty(id)
    &&& rec.asker == depositor
    &&& rec.bounty_amount == amount
    &&& rec.question_id@ == id
    &&& rec.state == BountyState::Open
    &&& rec.key_proof == derive_key(id)
    &&& records_unchanged_except(pre, post, id)
    &&& post.balance_of(depositor) == pre.balance_of(depositor) - amount - pre.storage_deposit
    &&& balances_unchanged_except(pre, post, depositor)
    &&& post.total_value() == pre.total_value()
}

/// The full contract of `post_bounty`: exactly one of the three errors or
/// success, decided by the caller's identity, the identifier and the
/// depositor's balance, in that order; every error leaves the ledger as it
/// was.
pub open spec fn open_post(
    pre: EscrowLedger,
    post: EscrowLedger,
    id: Seq<u8>,
    amount: u64,
    depositor: u64,
    caller: u64,
    r: Result<(), BountyError>,
) -> bool {
    if caller != depositor {
        r == Err::<(), BountyError>(BountyError::AuthorizationFailure) && post == pre
    } else if pre.has_bounty(id) {
        r == Err::<(), BountyError>(BountyError::DuplicateEscrow) && post == pre
    } else if pre.balance_of(depositor) < amount + pre.storage_deposit {
        r == Err::<(), BountyError>(BountyError::InsufficientFunds) && post == pre
    } else {
        r == Ok::<(), BountyError>(()) && open_ok(pre, post, id, amount, depositor)
    }
}

/// What a successful resolution does: the record is destroyed, its amount is
/// credited to the recipient (the designated winner on an award, the
/// depositor on a cancellation), and the storage deposit goes back to the
/// depositor.
pub open spec fn resolve_ok(
    pre: EscrowLedger,
    post: EscrowLedger,
    id: Seq<u8>,
    winner: Option<u64>,
) -> bool {
    let rec = pre.bounty(id);
    let recipient = match winner {
        Some(w) => w,
        None => rec.asker,
    };
    &&& post.storage_deposit == pre.storage_deposit
    &&& !post.has_bounty(id)
    &&& records_unchanged_except(pre, post, id)
    &&& (if recipient == rec.asker {
        post.balance_of(rec.asker)
            == pre.balance_of(rec.asker) + rec.bounty_amount + pre.storage_deposit
    } else {
        &&& post.balance_of(recipient) == pre.balance_of(recipient) + rec.bounty_amount
        &&& post.balance_of(rec.asker) == pre.balance_of(rec.asker) + pre.storage_deposit
    })
    &&& forall|w: u64|
        w != recipient && w != rec.asker ==> #[trigger] post.balance_of(w) == pre.balance_of(w)
    &&& post.total_value() == pre.total_value()
}

/// The full contract shared by `award_bounty` (`winner` designated) and
/// `cancel_bounty` (no winner): the record must exist, the caller must be its
/// depositor, and the record must still be `Open`, checked in that order;
/// every error leaves the ledger as it was.
pub open spec fn resolve_post(
    pre: EscrowLedger,
    post: EscrowLedger,
    id: Seq<u8>,
    caller: u64,
    winner: Option<u64>,
    r: Result<(), BountyError>,
) -> bool {
    if !pre.has_bounty(id) {
        r == Err::<(), BountyError>(BountyError::EscrowNotFound) && post == pre
    } else if caller != pre.bounty(id).asker {
        r == Err::<(), BountyError>(BountyError::Unauthorized) && post == pre
    } else if pre.bounty(id).state != BountyState::Open {
        r == Err::<(), BountyError>(BountyError::EscrowNotOpen) && post == pre
    } else {
        r == Ok::<(), BountyError>(()) && resolve_ok(pre, post, id, winner)
    }
}

/// The full contract of `transfer`: it fails exactly when `from` cannot cover
/// the amount, and otherwise moves the amount between the two balances.
pub open spec fn transfer_post(
    pre: EscrowLedger,
    post: EscrowLedger,
    from: u64,
    to: u64,
    amount: u64,
    r: Result<(), BountyError>,
) -> bool {
    if pre.balance_of(from) < amount {
        r == Err::<(), BountyError>(BountyError::InsufficientFunds) && post == pre
    } else {
        &&& r == Ok::<(), BountyError>(())
        &&& post.records@ == pre.records@
        &&& post.storage_deposit == pre.storage_deposit
        &&& (if from == to {
            forall|w: u64| #[trigger] post.balance_of(w) == pre.balance_of(w)
        } else {
            &&& post.balance_of(from) == pre.balance_of(from) - amount
            &&& post.balance_of(to) == pre.balance_of(to) + amount
            &&& forall|w: u64|
                w != from && w != to ==> #[trigger] post.balance_of(w) == pre.balance_of(w)
        })
        &&& post.total_value() == pre.total_value()
    }
}

/// Finds the index of the record keyed by `id`, if any.
fn find_record(records: &Vec<BountyAccount>, id: &[u8]) -> (r: Option<usize>)
    ensures
        match r {
            Some(i) => i < records@.len() && records@[i as int].question_id@ == id@,
            None => !has_record(records@, id@),
        },
{
    let mut i: usize = 0;
    while i < records.len()
        invariant
            0 <= i <= records@.len(),
            forall|j: int| 0 <= j < i ==> (#[trigger] records@[j].question_id@) != id@,
        decreases records@.len() - i,
    {
        if bytes_eq(records[i].question_id.as_slice(), id) {
            return Some(i);
        }
        i = i + 1;
    }
    None
}

/// Finds the index of `who`'s account, if any.
fn find_account(accounts: &Vec<Account>, who: u64) -> (r: Option<usize>)
    ensures
        match r {
            Some(i) => i < accounts@.len() && accounts@[i as int].owner == who,
            None => !has_account(accounts@, who),
        },
{
    let mut i: usize = 0;
    while i < accounts.len()
        invariant
            0 <= i <= accounts@.len(),
            forall|j: int| 0 <= j < i ==> (#[trigger] accounts@[j].owner) != who,
        decreases accounts@.len() - i,
    {
        if accounts[i].owner == who {
            return Some(i);
        }
        i = i + 1;
    }
    None
}

/// Adds `amount` to `who`'s balance, creating the account if the identity is
/// new to the backend.
fn credit(accounts: &mut Vec<Account>, who: u64, amount: u64)
    requires
        unique_owners(old(accounts)@),
        balance_in(old(accounts)@, who) + amount <= u64::MAX,
    ensures
        unique_owners(final(accounts)@),
        balance_in(final(accounts)@, who) == balance_in(old(accounts)@, who) + amount,
        forall|w: u64|
            w != who ==> #[trigger] balance_in(final(accounts)@, w)
                == balance_in(old(accounts)@, w),
        sum_balances(final(accounts)@) == sum_balances(old(accounts)@) + amount,
{
    match find_account(accounts, who) {
        Some(i) => {
            proof {
                lemma_account_at(accounts@, i as int);
            }
            let nb = accounts[i].balance + amount;
            let ghost pre = accounts@;
            accounts.set(i, Account { owner: who, balance: nb });
            proof {
                lemma_balance_update(pre, i as int, Account { owner: who, balance: nb });
                lemma_sum_balances_update(pre, i as int, Account { owner: who, balance: nb });
            }
        },
        None => {
            let ghost pre = accounts@;
            accounts.push(Account { owner: who, balance: amount });
            proof {
                lemma_balance_push(pre, Account { owner: who, balance: amount });
                lemma_sum_balances_push(pre, Account { owner: who, balance: amount });
            }
        },
    }
}

/// Removes `amount` from `who`'s balance, which must cover it.
fn debit(accounts: &mut Vec<Account>, who: u64, amount: u64)
    requires
        unique_owners(old(accounts)@),
        balance_in(old(accounts)@, who) >= amount,
    ensures
        unique_owners(final(accounts)@),
        balance_in(final(accounts)@, who) == balance_in(old(accounts)@, who) - amount,
        forall|w: u64|
            w != who ==> #[trigger] balance_in(final(accounts)@, w)
                == balance_in(old(accounts)@, w),
        sum_balances(final(accounts)@) == sum_balances(old(accounts)@) - amount,
{
    match find_account(accounts, who) {
        Some(i) => {
            proof {
                lemma_account_at(accounts@, i as int);
            }
            let nb = accounts[i].balance - amount;
            let ghost pre = accounts@;
            accounts.set(i, Account { owner: who, balance: nb });
            proof {
                lemma_balance_update(pre, i as int, Account { owner: who, balance: nb });
                lemma_sum_balances_update(pre, i as int, Account { owner: who, balance: nb });
            }
        },
        None => {
            // An identity without an account holds zero, so only a zero
            // debit reaches this arm, and there is nothing to change.
            assert(balance_in(accounts@, who) == 0);
        },
    }
}

/// Sums the balances of all accounts.
fn total_in_accounts(accounts: &Vec<Account>) -> (t: u64)
    requires
        sum_balances(accounts@) <= u64::MAX,
    ensures
        t as int == sum_balances(accounts@),
{
    let mut acc: u64 = 0;
    let mut i: usize = 0;
    proof {
        assert(accounts@.take(0) =~= Seq::<Account>::empty());
    }
    while i < accounts.len()
        invariant
            0 <= i <= accounts@.len(),
            sum_balances(accounts@) <= u64::MAX,
            acc as int == sum_balances(accounts@.take(i as int)),
        decreases accounts@.len() - i,
    {
        proof {
            assert(accounts@.take(i as int + 1).drop_last() =~= accounts@.take(i as int));
            assert(accounts@.take(i as int + 1).last() == accounts@[i as int]);
            lemma_take_sum_balances_le(accounts@, i as int + 1);
        }
        acc = acc + accounts[i].balance;
        i = i + 1;
    }
    proof {
        assert(accounts@.take(accounts@.len() as int) =~= accounts@);
    }
    acc
}

/// A prefix of the accounts never holds more than all of them.
proof fn lemma_take_sum_balances_le(s: Seq<Account>, n: int)
    requires
        0 <= n <= s.len(),
    ensures
        sum_balances(s.take(n)) <= sum_balances(s),
    decreases s.len() - n,
{
    if n == s.len() {
        assert(s.take(n) =~= s);
    } else {
        assert(s.take(n + 1).drop_last() =~= s.take(n));
        assert(s.take(n + 1).last() == s[n]);
        lemma_take_sum_balances_le(s, n + 1);
    }
}

/// Sums the custodied value of all records.
fn total_in_custody(records: &Vec<BountyAccount>, deposit: u64) -> (t: u64)
    requires
        sum_custody(records@, deposit) <= u64::MAX,
    ensures
        t as int == sum_custody(records@, deposit),
{
    let mut acc: u64 = 0;
    let mut i: usize = 0;
    proof {
        assert(records@.take(0) =~= Seq::<BountyAccount>::empty());
    }
    while i < records.len()
        invariant
            0 <= i <= records@.len(),
            sum_custody(records@, deposit) <= u64::MAX,
            acc as int == sum_custody(records@.take(i as int), deposit),
        decreases records@.len() - i,
    {
        proof {
            assert(records@.take(i as int + 1).drop_last() =~= records@.take(i as int));
            assert(records@.take(i as int + 1).last() == records@[i as int]);
            lemma_take_sum_custody_le(records@, i as int + 1, deposit);
        }
        acc = acc + records[i].bounty_amount;
        acc = acc + deposit;
        i = i + 1;
    }
    proof {
        assert(records@.take(records@.len() as int) =~= records@);
    }
    acc
}

/// A prefix of the records never custodies more than all of them.
proof fn lemma_take_sum_custody_le(s: Seq<BountyAccount>, n: int, deposit: u64)
    requires
        0 <= n <= s.len(),
    ensures
        sum_custody(s.take(n), deposit) <= sum_custody(s, deposit),
    decreases s.len() - n,
{
    if n == s.len() {
        assert(s.take(n) =~= s);
    } else {
        assert(s.take(n + 1).drop_last() =~= s.take(n));
        assert(s.take(n + 1).last() == s[n]);
        lemma_take_sum_custody_le(s, n + 1, deposit);
    }
}

impl EscrowLedger {
    /// A fresh ledger with no accounts and no records, whose backend charges
    /// `storage_deposit` for keeping one record.
    pub fn new(storage_deposit: u64) -> (l: EscrowLedger)
        ensures
            l.wf(),
            l.accounts@.len() == 0,
            l.records@.len() == 0,
            l.storage_deposit == storage_deposit,
            forall|w: u64| #[trigger] l.balance_of(w) == 0,
            l.total_value() == 0,
    {
        EscrowLedger { accounts: Vec::new(), records: Vec::new(), storage_deposit }
    }

    /// The balance the backend holds for `who`.
    pub fn balance_of_account(&self, who: u64) -> (b: u64)
        requires
            self.wf(),
        ensures
            b as int == self.balance_of(who),
    {
        match find_account(&self.accounts, who) {
            Some(i) => {
                proof {
                    lemma_account_at(self.accounts@, i as int);
                }
                self.accounts[i].balance
            },
            None => 0,
        }
    }

    /// The record under `question_id`, if one exists.
    pub fn get_record(&self, question_id: &[u8]) -> (r: Option<&BountyAccount>)
        requires
            self.wf(),
        ensures
            match r {
                Some(rec) => self.has_bounty(question_id@) && *rec == self.bounty(question_id@),
                None => !self.has_bounty(question_id@),
            },
    {
        match find_record(&self.records, question_id) {
            Some(i) => {
                proof {
                    lemma_record_at(self.records@, i as int);
                }
                Some(&self.records[i])
            },
            None => None,
        }
    }

    /// Everything of value the ledger holds, balances and custody together.
    pub fn total_value_held(&self) -> (t: u64)
        requires
            self.wf(),
        ensures
            t as int == self.total_value(),
    {
        proof {
            lemma_sum_balances_nonneg(self.accounts@);
            lemma_sum_custody_nonneg(self.records@, self.storage_deposit);
        }
        let a = total_in_accounts(&self.accounts);
        let c = total_in_custody(&self.records, self.storage_deposit);
        a + c
    }

    /// Issues `amount` fresh value units to `who`. Succeeds exactly when the
    /// enlarged total still fits in a machine word; on failure nothing
    /// changes.
    pub fn fund(&mut self, who: u64, amount: u64) -> (ok: bool)
        requires
            old(self).wf(),
        ensures
            final(self).wf(),
            if old(self).total_value() + amount <= u64::MAX {
                &&& ok
                &&& final(self).balance_of(who) == old(self).balance_of(who) + amount
                &&& balances_unchanged_except(*old(self), *final(self), who)
                &&& final(self).records@ == old(self).records@
                &&& final(self).storage_deposit == old(self).storage_deposit
                &&& final(self).total_value() == old(self).total_value() + amount
            } else {
                !ok && *final(self) == *old(self)
            },
    {
        let total = self.total_value_held();
        if amount > u64::MAX - total {
            return false;
        }
        proof {
            lemma_balance_in_le_sum(self.accounts@, who);
            lemma_sum_custody_nonneg(self.records@, self.storage_deposit);
        }
        credit(&mut self.accounts, who, amount);
        true
    }

    /// The value-transfer primitive of the backend: moves `amount` from one
    /// identity to another, failing exactly when `from` cannot cover it.
    pub fn transfer(&mut self, from: u64, to: u64, amount: u64) -> (r: Result<(), BountyError>)
        requires
            old(self).wf(),
        ensures
            final(self).wf(),
            transfer_post(*old(self), *final(self), from, to, amount, r),
    {
        let bal = self.balance_of_account(from);
        if bal < amount {
            return Err(BountyError::InsufficientFunds);
        }
        if from == to {
            return Ok(());
        }
        debit(&mut self.accounts, from, amount);
        proof {
            lemma_balance_in_le_sum(self.accounts@, to);
            lemma_sum_custody_nonneg(self.records@, self.storage_deposit);
        }
        credit(&mut self.accounts, to, amount);
        Ok(())
    }

    /// Creates and funds a new escrow record: `depositor` pays
    /// `bounty_amount` plus the storage deposit into custody under
    /// `question_id`, and the record starts out `Open`. The caller must be
    /// the depositor, the identifier must be free, and the depositor's
    /// balance must cover the charge, checked in that order; any failure
    /// leaves the ledger untouched.
    pub fn post_bounty(
        &mut self,
        question_id: Vec<u8>,
        bounty_amount: u64,
        depositor: u64,
        caller: u64,
    ) -> (r: Result<(), BountyError>)
        requires
            old(self).wf(),
            question_id@.len() <= 64,
        ensures
            final(self).wf(),
            open_post(
                *old(self),
                *final(self),
                question_id@,
                bounty_amount,
                depositor,
                caller,
                r,
            ),
    {
        if caller != depositor {
            return Err(BountyError::AuthorizationFailure);
        }
        if find_record(&self.records, question_id.as_slice()).is_some() {
            return Err(BountyError::DuplicateEscrow);
        }
        proof {
            lemma_balance_in_bounds(self.accounts@, depositor);
        }
        let need = match bounty_amount.checked_add(self.storage_deposit) {
            Some(n) => n,
            None => {
                return Err(BountyError::InsufficientFunds);
            },
        };
        let bal = self.balance_of_account(depositor);
        if bal < need {
            return Err(BountyError::InsufficientFunds);
        }
        let key = compute_key(question_id.as_slice());
        debit(&mut self.accounts, depositor, need);
        let rec = BountyAccount {
            asker: depositor,
            bounty_amount,
            question_id,
            state: BountyState::Open,
            key_proof: key,
        };
        let ghost pre_records = self.records@;
        self.records.push(rec);
        proof {
            lemma_record_push(pre_records, rec);
            lemma_sum_custody_push(pre_records, rec, self.storage_deposit);
            assert(forall|j: int|
                0 <= j < pre_records.len() ==> #[trigger] self.records@[j] == pre_records[j]);
        }
        Ok(())
    }

    /// The shared resolution routine: checks that the record exists, that the
    /// caller is its depositor, and that it is still `Open`; then destroys
    /// the record, credits its amount to the recipient (the designated
    /// winner, or the depositor when there is none), and refunds the storage
    /// deposit to the depositor.
    fn resolve_bounty(
        &mut self,
        question_id: &[u8],
        caller: u64,
        winner: Option<u64>,
    ) -> (r: Result<(), BountyError>)
        requires
            old(self).wf(),
        ensures
            final(self).wf(),
            resolve_post(*old(self), *final(self), question_id@, caller, winner, r),
    {
        let idx = match find_record(&self.records, question_id) {
            None => {
                return Err(BountyError::EscrowNotFound);
            },
            Some(i) => i,
        };
        proof {
            lemma_record_at(self.records@, idx as int);
        }
        let asker = self.records[idx].asker;
        if caller != asker {
            return Err(BountyError::Unauthorized);
        }
        if self.records[idx].state != BountyState::Open {
            return Err(BountyError::EscrowNotOpen);
        }
        let ghost pre_records = self.records@;
        let rec = self.records.remove(idx);
        let recipient = match winner {
            Some(w) => w,
            None => asker,
        };
        proof {
            lemma_record_remove(pre_records, idx as int);
            lemma_sum_custody_remove(pre_records, idx as int, self.storage_deposit);
            lemma_custody_le_sum(pre_records, idx as int, self.storage_deposit);
            lemma_balance_in_le_sum(self.accounts@, recipient);
            lemma_sum_custody_nonneg(self.records@, self.storage_deposit);
            assert(forall|j: int|
                0 <= j < self.records@.len()
                    ==> #[trigger] self.records@[j] == pre_records.remove(idx as int)[j]);
        }
        credit(&mut self.accounts, recipient, rec.bounty_amount);
        proof {
            lemma_balance_in_le_sum(self.accounts@, asker);
        }
        credit(&mut self.accounts, asker, self.storage_deposit);
        Ok(())
    }

    /// Awards the escrow under `question_id`: the full custodied amount goes
    /// to `winner`, the storage deposit back to the depositor, and the record
    /// is destroyed. Only the depositor may award, and only while the record
    /// is `Open`.
    pub fn award_bounty(&mut self, question_id: &[u8], winner: u64, caller: u64) -> (r: Result<
        (),
        BountyError,
    >)
        requires
            old(self).wf(),
        ensures
            final(self).wf(),
            resolve_post(*old(self), *final(self), question_id@, caller, Some(winner), r),
    {
        self.resolve_bounty(question_id, caller, Some(winner))
    }

    /// Cancels the escrow under `question_id`: amount and storage deposit
    /// both return to the depositor, and the record is destroyed. Only the
    /// depositor may cancel, and only while the record is `Open`.
    pub fn cancel_bounty(&mut self, question_id: &[u8], caller: u64) -> (r: Result<
        (),
        BountyError,
    >)
        requires
            old(self).wf(),
        ensures
            final(self).wf(),
            resolve_post(*old(self), *final(self), question_id@, caller, None, r),
    {
        self.resolve_bounty(question_id, caller, None)
    }
}

} // verus!
