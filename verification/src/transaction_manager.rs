//! The transaction engine: applies one entry to one account, enforces
//! global transaction-id uniqueness across the store, and runs a whole
//! sequence of entries in order.
//!
//! Every executable function is specified against the mathematical model
//! below (`AccountView`, `spec_manage`, `spec_process`, `spec_run`), so the
//! per-kind rules — what a deposit, withdrawal, dispute, resolve or
//! chargeback does, and exactly when each is rejected — are pinned down
//! once, as spec functions, and the code is proved to follow them.

use vstd::prelude::*;

use std::collections::HashMap;

use crate::transaction::{Transaction, TransactionError, TransactionType};

verus! {

broadcast use vstd::std_specs::hash::group_hash_axioms;

/// The mathematical value of one account: its balances as unbounded
/// integers, its lock flag, and its history of disputable entries,
/// each stored with its current disputed flag.
#[verifier::ext_equal]
pub struct AccountView {
    pub id: u16,
    pub available: int,
    pub held: int,
    pub total: int,
    pub locked: bool,
    pub history: Map<u32, (bool, Transaction)>,
}

impl AccountView {
    /// Well-formedness: the balance equation holds, and every stored
    /// history entry carries an amount (only deposits and withdrawals
    /// are ever recorded, and both carry one).
    pub open spec fn wf(self) -> bool {
        &&& self.total == self.available + self.held
        &&& forall|t: u32|
            self.history.contains_key(t) ==> (#[trigger] self.history[t]).1.amount is Some
    }

    /// A freshly created account: all balances zero, unlocked, no history.
    pub open spec fn empty(id: u16) -> AccountView {
        AccountView {
            id,
            available: 0,
            held: 0,
            total: 0,
            locked: false,
            history: Map::empty(),
        }
    }
}

/// Whether a mathematical balance fits the machine integer that holds it.
pub open spec fn fits_balance(v: int) -> bool {
    i128::MIN <= v <= i128::MAX
}

/// What one entry does to one account: the account afterwards, and the
/// engine's answer. The account is unchanged whenever the answer is an
/// error.
pub open spec fn spec_manage(a: AccountView, t: Transaction) -> (AccountView, Result<
    (),
    TransactionError,
>) {
    match t.trans_type {
        TransactionType::Deposit => match t.amount {
            Some(amt) => if fits_balance(a.available + amt) && fits_balance(a.total + amt) {
                (
                    AccountView {
                        available: a.available + amt,
                        total: a.total + amt,
                        history: a.history.insert(t.tx, (false, t)),
                        ..a
                    },
                    Ok(()),
                )
            } else {
                (a, Err(TransactionError::BalanceOverflow))
            },
            None => (a, Err(TransactionError::NoAmountForTransaction)),
        },
        TransactionType::WithDrawal => match t.amount {
            Some(amt) => if a.available - amt < 0 {
                (a, Err(TransactionError::InsufficientFund))
            } else if fits_balance(a.total - amt) {
                (
                    AccountView {
                        available: a.available - amt,
                        total: a.total - amt,
                        history: a.history.insert(t.tx, (false, t)),
                        ..a
                    },
                    Ok(()),
                )
            } else {
                (a, Err(TransactionError::BalanceOverflow))
            },
            None => (a, Err(TransactionError::NoAmountForTransaction)),
        },
        TransactionType::Dispute => if !a.history.contains_key(t.tx) {
            (a, Err(TransactionError::InvalidReferencedTransaction))
        } else {
            let orig = a.history[t.tx].1;
            let amt = orig.amount.unwrap();
            if fits_balance(a.available - amt) && fits_balance(a.held + amt) {
                (
                    AccountView {
                        available: a.available - amt,
                        held: a.held + amt,
                        history: a.history.insert(t.tx, (true, orig)),
                        ..a
                    },
                    Ok(()),
                )
            } else {
                (a, Err(TransactionError::BalanceOverflow))
            }
        },
        TransactionType::Resolve => if !a.history.contains_key(t.tx) {
            (a, Err(TransactionError::InvalidReferencedTransaction))
        } else if !a.history[t.tx].0 {
            (a, Err(TransactionError::ReferencedTransactionIsNotDisputed))
        } else {
            let orig = a.history[t.tx].1;
            let amt = orig.amount.unwrap();
            if fits_balance(a.available + amt) && fits_balance(a.held - amt) {
                (
                    AccountView {
                        available: a.available + amt,
                        held: a.held - amt,
                        history: a.history.insert(t.tx, (false, orig)),
                        ..a
                    },
                    Ok(()),
                )
            } else {
                (a, Err(TransactionError::BalanceOverflow))
            }
        },
        TransactionType::ChargeBack => if !a.history.contains_key(t.tx) {
            (a, Err(TransactionError::InvalidReferencedTransaction))
        } else if !a.history[t.tx].0 {
            (a, Err(TransactionError::ReferencedTransactionIsNotDisputed))
        } else {
            let orig = a.history[t.tx].1;
            let amt = orig.amount.unwrap();
            if fits_balance(a.total - amt) && fits_balance(a.held - amt) {
                (
                    AccountView {
                        total: a.total - amt,
                        held: a.held - amt,
                        locked: true,
                        history: a.history.insert(t.tx, (false, orig)),
                        ..a
                    },
                    Ok(()),
                )
            } else {
                (a, Err(TransactionError::BalanceOverflow))
            }
        },
    }
}

/// One account of the ledger: per-client balances in minor currency
/// units, the lock flag set by a successful chargeback, and the history
/// of entries that a dispute may later reference.
#[derive(Debug, PartialEq)]
pub struct Account {
    pub id: u16,
    pub available: i128,
    pub held: i128,
    pub total: i128,
    pub locked: bool,
    pub transactions: HashMap<u32, (bool, Transaction)>,
}

impl View for Account {
    type V = AccountView;

    open spec fn view(&self) -> AccountView {
        AccountView {
            id: self.id,
            available: self.available as int,
            held: self.held as int,
            total: self.total as int,
            locked: self.locked,
            history: self.transactions@,
        }
    }
}

impl Account {
    /// Creates the account a client id is first bound to.
    pub fn new(id: u16) -> (a: Account)
        ensures
            a@ == AccountView::empty(id),
    {
        let a = Account {
            id,
            available: 0,
            held: 0,
            total: 0,
            locked: false,
            transactions: HashMap::new(),
        };
        proof {
            assert(a@ =~= AccountView::empty(id));
        }
        a
    }
}

/// Adds an amount to a balance, or reports that the sum leaves the
/// machine range.
fn add_amount(balance: i128, amount: u64) -> (r: Option<i128>)
    ensures
        r is Some <==> fits_balance(balance + amount),
        r matches Some(v) ==> v == balance + amount,
{
    let amt = amount as i128;
    if balance <= i128::MAX - amt {
        Some(balance + amt)
    } else {
        None
    }
}

/// Subtracts an amount from a balance, or reports that the difference
/// leaves the machine range.
fn sub_amount(balance: i128, amount: u64) -> (r: Option<i128>)
    ensures
        r is Some <==> fits_balance(balance - amount),
        r matches Some(v) ==> v == balance - amount,
{
    let amt = amount as i128;
    if balance >= i128::MIN + amt {
        Some(balance - amt)
    } else {
        None
    }
}

/// Applies one entry to one account, exactly as `spec_manage` says: the
/// account is mutated only on `Ok`, and every error leaves it untouched.
pub fn manage_transaction(account: &mut Account, transaction: &Transaction) -> (r: Result<
    (),
    TransactionError,
>)
    requires
        old(account)@.wf(),
    ensures
        final(account)@ == spec_manage(old(account)@, *transaction).0,
        r == spec_manage(old(account)@, *transaction).1,
        final(account)@.wf(),
{
    match transaction.trans_type {
        TransactionType::Deposit => {
            match transaction.amount {
                Some(amount) => {
                    let new_available = add_amount(account.available, amount);
                    let new_total = add_amount(account.total, amount);
                    match (new_available, new_total) {
                        (Some(av), Some(tt)) => {
                            account.transactions.insert(transaction.tx, (false, *transaction));
                            account.available = av;
                            account.total = tt;
                            Ok(())
                        },
                        _ => Err(TransactionError::BalanceOverflow),
                    }
                },
                None => Err(TransactionError::NoAmountForTransaction),
            }
        },
        TransactionType::WithDrawal => {
            match transaction.amount {
                Some(amount) => {
                    if account.available < amount as i128 {
                        return Err(TransactionError::InsufficientFund);
                    }
                    match sub_amount(account.total, amount) {
                        Some(tt) => {
                            account.transactions.insert(transaction.tx, (false, *transaction));
                            account.available = account.available - amount as i128;
                            account.total = tt;
                            Ok(())
                        },
                        None => Err(TransactionError::BalanceOverflow),
                    }
                },
                None => Err(TransactionError::NoAmountForTransaction),
            }
        },
        TransactionType::Dispute => {
            let referenced = match account.transactions.get(&transaction.tx) {
                Some(p) => *p,
                None => {
                    return Err(TransactionError::InvalidReferencedTransaction);
                },
            };
            let orig = referenced.1;
            match orig.amount {
                Some(amount) => {
                    let new_available = sub_amount(account.available, amount);
                    let new_held = add_amount(account.held, amount);
                    match (new_available, new_held) {
                        (Some(av), Some(hd)) => {
                            account.transactions.insert(transaction.tx, (true, orig));
                            account.available = av;
                            account.held = hd;
                            Ok(())
                        },
                        _ => Err(TransactionError::BalanceOverflow),
                    }
                },
                None => Err(TransactionError::NoAmountForTransaction),
            }
        },
        TransactionType::Resolve => {
            let referenced = match account.transactions.get(&transaction.tx) {
                Some(p) => *p,
                None => {
                    return Err(TransactionError::InvalidReferencedTransaction);
                },
            };
            if !referenced.0 {
                return Err(TransactionError::ReferencedTransactionIsNotDisputed);
            }
            let orig = referenced.1;
            match orig.amount {
                Some(amount) => {
                    let new_available = add_amount(account.available, amount);
                    let new_held = sub_amount(account.held, amount);
                    match (new_available, new_held) {
                        (Some(av), Some(hd)) => {
                            account.transactions.insert(transaction.tx, (false, orig));
                            account.available = av;
                            account.held = hd;
                            Ok(())
                        },
                        _ => Err(TransactionError::BalanceOverflow),
                    }
                },
                None => Err(TransactionError::NoAmountForTransaction),
            }
        },
        TransactionType::ChargeBack => {
            let referenced = match account.transactions.get(&transaction.tx) {
                Some(p) => *p,
                None => {
                    return Err(TransactionError::InvalidReferencedTransaction);
                },
            };
            if !referenced.0 {
                return Err(TransactionError::ReferencedTransactionIsNotDisputed);
            }
            let orig = referenced.1;
            match orig.amount {
                Some(amount) => {
                    let new_total = sub_amount(account.total, amount);
                    let new_held = sub_amount(account.held, amount);
                    match (new_total, new_held) {
                        (Some(tt), Some(hd)) => {
                            account.transactions.insert(transaction.tx, (false, orig));
                            account.total = tt;
                            account.held = hd;
                            account.locked = true;
                            Ok(())
                        },
                        _ => Err(TransactionError::BalanceOverflow),
                    }
                },
                None => Err(TransactionError::NoAmountForTransaction),
            }
        },
    }
}

/// The ledger store as the model sees it: every account by its value.
pub open spec fn store_view(m: Map<u16, Account>) -> Map<u16, AccountView> {
    m.map_values(|a: Account| a@)
}

/// Well-formedness of the store: every account is well formed and sits
/// under its own client id.
pub open spec fn store_wf(s: Map<u16, AccountView>) -> bool {
    forall|c: u16| s.contains_key(c) ==> (#[trigger] s[c]).wf() && s[c].id == c
}

/// Whether some account of the store already holds `tx` in its history.
pub open spec fn tx_in_store(s: Map<u16, AccountView>, tx: u32) -> bool {
    exists|c: u16| #[trigger] s.contains_key(c) && s[c].history.contains_key(tx)
}

/// What one entry does to the whole store: a deposit or withdrawal whose
/// `tx` id is already recorded anywhere is rejected before any mutation —
/// in particular its account is not created — and every other entry is
/// applied to the account under its client id, created empty on first
/// reference.
pub open spec fn spec_process(s: Map<u16, AccountView>, t: Transaction) -> (Map<u16, AccountView>, Result<
    (),
    TransactionError,
>) {
    if (t.trans_type is Deposit || t.trans_type is WithDrawal) && tx_in_store(s, t.tx) {
        (s, Err(TransactionError::ExistingTransactionId))
    } else {
        let a0 = if s.contains_key(t.client) {
            s[t.client]
        } else {
            AccountView::empty(t.client)
        };
        let (a1, r) = spec_manage(a0, t);
        (s.insert(t.client, a1), r)
    }
}

/// The store after a whole sequence of entries, applied in order to an
/// initially empty store. Being a function of the sequence alone, it also
/// says that replaying the same entries always ends in the same store.
pub open spec fn spec_run(entries: Seq<Transaction>) -> Map<u16, AccountView>
    decreases entries.len(),
{
    if entries.len() == 0 {
        Map::empty()
    } else {
        spec_process(spec_run(entries.drop_last()), entries.last()).0
    }
}

/// Walks every account and answers whether any of them already holds
/// `tx` in its history.
fn store_has_tx(accounts: &HashMap<u16, Account>, tx: u32) -> (r: bool)
    ensures
        r == tx_in_store(store_view(accounts@), tx),
{
    // An empty store holds no id at all; this settles the case in which
    // the loop below never runs.
    proof {
        assert(accounts@.dom().len() == 0 ==> !tx_in_store(store_view(accounts@), tx)) by {
            if accounts@.dom().len() == 0 {
                accounts@.dom().lemma_len0_is_empty();
                assert forall|c: u16| !store_view(accounts@).contains_key(c) by {
                    assert(!accounts@.dom().contains(c));
                }
            }
        }
    }
    for k in it: accounts.keys()
        invariant
            forall|j: int|
                0 <= j < it.index() ==> !accounts@[*#[trigger] it.seq()[j]].transactions@
                    .contains_key(tx),
            it.index() == it.seq().len() && it.seq().len() > 0 ==> !tx_in_store(
                store_view(accounts@),
                tx,
            ),
    {
        proof {
            assert(0 <= it.index() < it.seq().len());
            assert(k == it.seq()[it.index()]);
            assert(it.seq().unref()[it.index()] == *k);
            assert(it.seq().unref().contains(*k));
            assert(accounts@.dom().contains(*k));
        }
        let account = match accounts.get(k) {
            Some(a) => a,
            None => {
                // unreachable: the key was drawn from the map itself
                proof {
                    assert(false);
                }
                return false;
            },
        };
        if account.transactions.contains_key(&tx) {
            proof {
                assert(store_view(accounts@).contains_key(*k));
                assert(store_view(accounts@)[*k].history.contains_key(tx));
            }
            return true;
        }
        // Once the last key has been checked, every key of the store is
        // one of the checked ones, so no account holds the id.
        proof {
            assert forall|c: u16|
                it.index() == it.seq().len() && store_view(accounts@).contains_key(
                    c,
                ) implies !store_view(accounts@)[c].history.contains_key(tx) by {
                assert(accounts@.dom().contains(c));
                assert(it.seq().unref().to_set().contains(c));
                let j = choose|j: int| 0 <= j < it.seq().unref().len() && it.seq().unref()[j] == c;
                assert(*it.seq()[j] == c);
                assert(!accounts@[*it.seq()[j]].transactions@.contains_key(tx));
            }
        }
    }
    false
}

/// For a deposit or withdrawal, answers whether its `tx` id is still
/// unused across every account's history; other kinds reference an
/// existing id on purpose and always pass.
fn valid_transaction_id(accounts: &HashMap<u16, Account>, transaction: &Transaction) -> (r: bool)
    ensures
        r == !((transaction.trans_type is Deposit || transaction.trans_type is WithDrawal)
            && tx_in_store(store_view(accounts@), transaction.tx)),
{
    match transaction.trans_type {
        TransactionType::Deposit | TransactionType::WithDrawal => !store_has_tx(
            accounts,
            transaction.tx,
        ),
        _ => true,
    }
}

/// Applies one entry to the whole store, exactly as `spec_process` says:
/// a deposit or withdrawal reusing a recorded `tx` id is rejected without
/// touching the store, and every other entry reaches the account under
/// its client id, created empty on first reference — even when the entry
/// itself then fails validation.
pub fn process_transaction(accounts: &mut HashMap<u16, Account>, transaction: &Transaction) -> (r:
    Result<(), TransactionError>)
    requires
        store_wf(store_view(old(accounts)@)),
    ensures
        store_view(final(accounts)@) == spec_process(store_view(old(accounts)@), *transaction).0,
        r == spec_process(store_view(old(accounts)@), *transaction).1,
        store_wf(store_view(final(accounts)@)),
{
    if !valid_transaction_id(accounts, transaction) {
        return Err(TransactionError::ExistingTransactionId);
    }
    let mut account = match accounts.remove(&transaction.client) {
        Some(a) => a,
        None => Account::new(transaction.client),
    };
    proof {
        assert(store_view(old(accounts)@).contains_key(transaction.client)
            ==> account@ == store_view(old(accounts)@)[transaction.client]);
        assert(account@.wf());
    }
    let result = manage_transaction(&mut account, transaction);
    accounts.insert(transaction.client, account);
    proof {
        assert(store_view(final(accounts)@) =~= spec_process(
            store_view(old(accounts)@),
            *transaction,
        ).0);
    }
    result
}

/// Runs a whole sequence of entries, in order, against a fresh store,
/// ignoring per-entry rejections, and returns the final store:
/// `spec_run` of the sequence, so any two runs of equal sequences end in
/// equal stores.
pub fn run_transactions(entries: &Vec<Transaction>) -> (accounts: HashMap<u16, Account>)
    ensures
        store_view(accounts@) == spec_run(entries@),
        store_wf(store_view(accounts@)),
{
    let mut accounts: HashMap<u16, Account> = HashMap::new();
    proof {
        assert(store_view(accounts@) =~= spec_run(entries@.take(0)));
    }
    for i in it: 0..entries.len()
        invariant
            store_view(accounts@) == spec_run(entries@.take(i as int)),
            store_wf(store_view(accounts@)),
    {
        let _ = process_transaction(&mut accounts, &entries[i]);
        proof {
            assert(entries@.take(i + 1).drop_last() =~= entries@.take(i as int));
            assert(entries@.take(i + 1).last() == entries@[i as int]);
        }
    }
    proof {
        assert(entries@.take(entries@.len() as int) =~= entries@);
    }
    accounts
}

} // verus!
