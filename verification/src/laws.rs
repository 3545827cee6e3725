//! The general laws of the engine, each proved once and for all over the
//! model: balance-equation preservation, the exact effect of each step of
//! the dispute lifecycle, rejection leaving state untouched, permanence
//! of the lock, determinism of a replay, and global id uniqueness.

use vstd::prelude::*;

use crate::transaction::{Transaction, TransactionError};
use crate::transaction_manager::{
    fits_balance, spec_manage, spec_process, spec_run, store_wf, tx_in_store, AccountView,
};

verus! {

/// Applying any entry to a well-formed account leaves it well formed; in
/// particular `total == available + held` survives every mutation.
pub proof fn lemma_manage_preserves_wf(a: AccountView, t: Transaction)
    requires
        a.wf(),
    ensures
        spec_manage(a, t).0.wf(),
{
}

/// An entry the engine rejects mutates nothing: whenever the answer is
/// an error, the account afterwards is the account before.
pub proof fn lemma_rejected_entry_leaves_account_unchanged(a: AccountView, t: Transaction)
    ensures
        spec_manage(a, t).1 is Err ==> spec_manage(a, t).0 == a,
{
}

/// Applying any entry to a well-formed store leaves it well formed.
pub proof fn lemma_process_preserves_wf(s: Map<u16, AccountView>, t: Transaction)
    requires
        store_wf(s),
    ensures
        store_wf(spec_process(s, t).0),
{
    if !((t.trans_type is Deposit || t.trans_type is WithDrawal) && tx_in_store(s, t.tx)) {
        let a0 = if s.contains_key(t.client) {
            s[t.client]
        } else {
            AccountView::empty(t.client)
        };
        lemma_manage_preserves_wf(a0, t);
    }
}

/// The store left by any sequence of entries is well formed: every
/// account satisfies its balance equation and sits under its own id.
pub proof fn lemma_run_well_formed(entries: Seq<Transaction>)
    ensures
        store_wf(spec_run(entries)),
    decreases entries.len(),
{
    if entries.len() > 0 {
        lemma_run_well_formed(entries.drop_last());
        lemma_process_preserves_wf(spec_run(entries.drop_last()), entries.last());
    }
}

/// A sequence of deposits and withdrawals alone never freezes funds:
/// afterwards every account has `held == 0`, so `total == available`.
pub proof fn lemma_deposits_withdrawals_keep_held_zero(entries: Seq<Transaction>)
    requires
        forall|i: int|
            0 <= i < entries.len() ==> (#[trigger] entries[i]).trans_type is Deposit
                || entries[i].trans_type is WithDrawal,
    ensures
        forall|c: u16| #[trigger]
            spec_run(entries).contains_key(c) ==> spec_run(entries)[c].held == 0 && spec_run(
                entries,
            )[c].total == spec_run(entries)[c].available,
    decreases entries.len(),
{
    if entries.len() > 0 {
        let prefix = entries.drop_last();
        let t = entries.last();
        lemma_deposits_withdrawals_keep_held_zero(prefix);
        assert(entries[entries.len() - 1] == t);
        let s = spec_run(prefix);
        let result = spec_run(entries);
        assert forall|c: u16| #[trigger]
            result.contains_key(c) implies result[c].held == 0 && result[c].total
            == result[c].available by {
            if (t.trans_type is Deposit || t.trans_type is WithDrawal) && tx_in_store(s, t.tx) {
                assert(s.contains_key(c));
            } else if c == t.client {
                let a0 = if s.contains_key(t.client) {
                    s[t.client]
                } else {
                    AccountView::empty(t.client)
                };
                assert(a0.held == 0 && a0.total == a0.available);
                assert(result[c] == spec_manage(a0, t).0);
            } else {
                assert(s.contains_key(c));
            }
        }
    }
}

/// A withdrawal that would drive the available balance below zero is
/// rejected with `InsufficientFund` and the account is left numerically
/// unchanged.
pub proof fn lemma_withdrawal_insufficient_rejected(a: AccountView, t: Transaction)
    requires
        t.trans_type is WithDrawal,
        t.amount matches Some(amt) && a.available < amt,
    ensures
        spec_manage(a, t) == (a, Err::<(), TransactionError>(TransactionError::InsufficientFund)),
{
}

/// Disputing a `tx` id with no stored entry fails with
/// `InvalidReferencedTransaction` and mutates nothing.
pub proof fn lemma_dispute_unknown_rejected(a: AccountView, t: Transaction)
    requires
        t.trans_type is Dispute,
        !a.history.contains_key(t.tx),
    ensures
        spec_manage(a, t) == (
            a,
            Err::<(), TransactionError>(TransactionError::InvalidReferencedTransaction),
        ),
{
}

/// Whether moving `amt` from `available` to `held` stays within the
/// machine range of both balances.
pub open spec fn fits_available_to_held(a: AccountView, amt: u64) -> bool {
    &&& fits_balance(a.available - amt)
    &&& fits_balance(a.held + amt)
}

/// Disputing a stored entry moves exactly its amount from `available`
/// to `held`, flips its disputed flag to true, and touches nothing else
/// — not `total`, not the lock, not the stored entry itself.
pub proof fn lemma_dispute_moves_amount(a: AccountView, t: Transaction)
    requires
        a.wf(),
        t.trans_type is Dispute,
        a.history.contains_key(t.tx),
        fits_available_to_held(a, a.history[t.tx].1.amount.unwrap()),
    ensures
        ({
            let amt = a.history[t.tx].1.amount.unwrap() as int;
            let (a1, r) = spec_manage(a, t);
            &&& r is Ok
            &&& a1.available == a.available - amt
            &&& a1.held == a.held + amt
            &&& a1.total == a.total
            &&& a1.history[t.tx] == (true, a.history[t.tx].1)
            &&& a1.locked == a.locked
            &&& a1.id == a.id
        }),
{
}

/// Resolving a `tx` id with no stored entry fails with
/// `InvalidReferencedTransaction`; resolving a stored entry that is not
/// under dispute fails with `ReferencedTransactionIsNotDisputed`; both
/// leave the account untouched.
pub proof fn lemma_resolve_rejections(a: AccountView, t: Transaction)
    requires
        t.trans_type is Resolve,
    ensures
        !a.history.contains_key(t.tx) ==> spec_manage(a, t) == (
            a,
            Err::<(), TransactionError>(TransactionError::InvalidReferencedTransaction),
        ),
        a.history.contains_key(t.tx) && !a.history[t.tx].0 ==> spec_manage(a, t) == (
            a,
            Err::<(), TransactionError>(TransactionError::ReferencedTransactionIsNotDisputed),
        ),
{
}

/// Resolving a dispute reverses it exactly: disputing an undisputed
/// stored entry and then resolving the same `tx` returns the account —
/// balances, flags and history alike — to precisely its earlier value.
pub proof fn lemma_resolve_reverses_dispute(a: AccountView, dispute: Transaction, resolve: Transaction)
    requires
        a.wf(),
        dispute.trans_type is Dispute,
        resolve.trans_type is Resolve,
        resolve.tx == dispute.tx,
        a.history.contains_key(dispute.tx),
        !a.history[dispute.tx].0,
        fits_available_to_held(a, a.history[dispute.tx].1.amount.unwrap()),
        fits_balance(a.available),
        fits_balance(a.held),
    ensures
        spec_manage(spec_manage(a, dispute).0, resolve).1 is Ok,
        spec_manage(spec_manage(a, dispute).0, resolve).0 == a,
{
    let a1 = spec_manage(a, dispute).0;
    let a2 = spec_manage(a1, resolve).0;
    assert(a2.history =~= a.history);
    assert(a2 =~= a);
}

/// Charging back a `tx` id with no stored entry fails with
/// `InvalidReferencedTransaction`; charging back a stored entry that is
/// not under dispute fails with `ReferencedTransactionIsNotDisputed`;
/// both leave the account untouched — in particular unlocked.
pub proof fn lemma_chargeback_rejections(a: AccountView, t: Transaction)
    requires
        t.trans_type is ChargeBack,
    ensures
        !a.history.contains_key(t.tx) ==> spec_manage(a, t) == (
            a,
            Err::<(), TransactionError>(TransactionError::InvalidReferencedTransaction),
        ),
        a.history.contains_key(t.tx) && !a.history[t.tx].0 ==> spec_manage(a, t) == (
            a,
            Err::<(), TransactionError>(TransactionError::ReferencedTransactionIsNotDisputed),
        ),
{
}

/// Charging back a disputed entry removes exactly its amount from both
/// `held` and `total`, leaves `available` untouched, and locks the
/// account.
pub proof fn lemma_chargeback_takes_held_funds(a: AccountView, t: Transaction)
    requires
        a.wf(),
        t.trans_type is ChargeBack,
        a.history.contains_key(t.tx),
        a.history[t.tx].0,
        fits_balance(a.total - a.history[t.tx].1.amount.unwrap()),
        fits_balance(a.held - a.history[t.tx].1.amount.unwrap()),
    ensures
        ({
            let amt = a.history[t.tx].1.amount.unwrap() as int;
            let (a1, r) = spec_manage(a, t);
            &&& r is Ok
            &&& a1.held == a.held - amt
            &&& a1.total == a.total - amt
            &&& a1.available == a.available
            &&& a1.locked
        }),
{
}

/// The lock is permanent: no entry of any kind ever clears it.
pub proof fn lemma_lock_is_permanent(a: AccountView, t: Transaction)
    requires
        a.locked,
    ensures
        spec_manage(a, t).0.locked,
{
}

/// Replaying equal entry sequences against fresh stores ends in equal
/// stores: the final ledger is a function of the input order alone.
pub proof fn lemma_replay_deterministic(first: Seq<Transaction>, second: Seq<Transaction>)
    requires
        first == second,
    ensures
        spec_run(first) == spec_run(second),
{
}

/// A deposit or withdrawal whose `tx` id is already recorded in any
/// account's history is rejected with `ExistingTransactionId`, the store
/// is left untouched, and in particular no account is created for the
/// rejected entry's client.
pub proof fn lemma_duplicate_id_rejected(s: Map<u16, AccountView>, t: Transaction)
    requires
        t.trans_type is Deposit || t.trans_type is WithDrawal,
        tx_in_store(s, t.tx),
    ensures
        spec_process(s, t) == (s, Err::<(), TransactionError>(TransactionError::ExistingTransactionId)),
        !s.contains_key(t.client) ==> !spec_process(s, t).0.contains_key(t.client),
{
}

} // verus!
