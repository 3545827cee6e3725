use std::collections::HashMap;

use ledger::transaction::{Transaction, TransactionError, TransactionType};
use ledger::transaction_manager::{manage_transaction, process_transaction, run_transactions, Account};

fn deposit(client: u16, tx: u32, amount: u64) -> Transaction {
    Transaction { trans_type: TransactionType::Deposit, client, tx, amount: Some(amount) }
}

fn withdrawal(client: u16, tx: u32, amount: u64) -> Transaction {
    Transaction { trans_type: TransactionType::WithDrawal, client, tx, amount: Some(amount) }
}

fn reference(trans_type: TransactionType, client: u16, tx: u32) -> Transaction {
    Transaction { trans_type, client, tx, amount: None }
}

#[test]
fn deposits_and_withdrawals_hold_nothing() {
    let entries = vec![
        deposit(1, 1, 500),
        deposit(1, 2, 200),
        withdrawal(1, 3, 300),
        withdrawal(1, 4, 1000),
        deposit(1, 5, 50),
    ];
    let accounts = run_transactions(&entries);
    let account = accounts.get(&1).unwrap();
    assert_eq!(account.held, 0);
    assert_eq!(account.available, 450);
    assert_eq!(account.total, account.available + account.held);
    assert!(!account.locked);
}

#[test]
fn insufficient_withdrawal_leaves_account_unchanged() {
    let mut accounts = HashMap::new();
    assert!(process_transaction(&mut accounts, &deposit(1, 1, 100)).is_ok());
    assert!(matches!(
        process_transaction(&mut accounts, &withdrawal(2, 2, 300)),
        Err(TransactionError::InsufficientFund)
    ));
    let account = accounts.get(&2).unwrap();
    assert_eq!(account.available, 0);
    assert_eq!(account.held, 0);
    assert_eq!(account.total, 0);
    assert!(!account.locked);
    assert!(account.transactions.is_empty());
}

#[test]
fn withdrawal_to_exactly_zero_is_allowed() {
    let mut account = Account::new(1);
    account.available = 250;
    account.total = 250;
    assert!(manage_transaction(&mut account, &withdrawal(1, 1, 250)).is_ok());
    assert_eq!(account.available, 0);
    assert_eq!(account.total, 0);
}

#[test]
fn dispute_then_resolve_restores_balances() {
    let mut accounts = HashMap::new();
    assert!(process_transaction(&mut accounts, &deposit(1, 1, 10)).is_ok());
    assert!(process_transaction(&mut accounts, &reference(TransactionType::Dispute, 1, 1)).is_ok());
    {
        let account = accounts.get(&1).unwrap();
        assert_eq!(account.available, 0);
        assert_eq!(account.held, 10);
        assert_eq!(account.total, 10);
        assert!(!account.locked);
    }
    assert!(process_transaction(&mut accounts, &reference(TransactionType::Resolve, 1, 1)).is_ok());
    let account = accounts.get(&1).unwrap();
    assert_eq!(account.available, 10);
    assert_eq!(account.held, 0);
    assert_eq!(account.total, 10);
    assert!(!account.locked);
    assert_eq!(account.transactions.get(&1).unwrap().0, false);
}

#[test]
fn dispute_then_chargeback_locks_account() {
    let mut accounts = HashMap::new();
    assert!(process_transaction(&mut accounts, &deposit(1, 1, 10)).is_ok());
    assert!(process_transaction(&mut accounts, &reference(TransactionType::Dispute, 1, 1)).is_ok());
    assert!(process_transaction(&mut accounts, &reference(TransactionType::ChargeBack, 1, 1)).is_ok());
    let account = accounts.get(&1).unwrap();
    assert_eq!(account.available, 0);
    assert_eq!(account.held, 0);
    assert_eq!(account.total, 0);
    assert!(account.locked);
}

#[test]
fn locked_account_still_accepts_later_entries() {
    let mut accounts = HashMap::new();
    assert!(process_transaction(&mut accounts, &deposit(1, 1, 10)).is_ok());
    assert!(process_transaction(&mut accounts, &reference(TransactionType::Dispute, 1, 1)).is_ok());
    assert!(process_transaction(&mut accounts, &reference(TransactionType::ChargeBack, 1, 1)).is_ok());
    assert!(process_transaction(&mut accounts, &deposit(1, 2, 7)).is_ok());
    let account = accounts.get(&1).unwrap();
    assert_eq!(account.available, 7);
    assert_eq!(account.total, 7);
    assert!(account.locked);
}

#[test]
fn replaying_the_same_entries_gives_the_same_store() {
    let entries = vec![
        deposit(1, 1, 100),
        deposit(2, 2, 50),
        reference(TransactionType::Dispute, 1, 1),
        withdrawal(2, 3, 20),
        reference(TransactionType::ChargeBack, 1, 1),
        deposit(3, 4, 5),
        reference(TransactionType::Resolve, 2, 2),
    ];
    let first = run_transactions(&entries);
    let second = run_transactions(&entries);
    assert_eq!(first, second);
}

#[test]
fn duplicate_transaction_id_does_not_create_account() {
    let mut accounts = HashMap::new();
    assert!(process_transaction(&mut accounts, &deposit(1, 1, 1)).is_ok());
    assert!(matches!(
        process_transaction(&mut accounts, &deposit(2, 1, 1)),
        Err(TransactionError::ExistingTransactionId)
    ));
    assert!(!accounts.contains_key(&2));
}

#[test]
fn dispute_for_unknown_client_still_creates_account() {
    let mut accounts = HashMap::new();
    assert!(matches!(
        process_transaction(&mut accounts, &reference(TransactionType::Dispute, 9, 1)),
        Err(TransactionError::InvalidReferencedTransaction)
    ));
    let account = accounts.get(&9).unwrap();
    assert_eq!(account.id, 9);
    assert_eq!(account.total, 0);
}

#[test]
fn overflowing_deposit_is_rejected_unchanged() {
    let mut account = Account::new(1);
    account.available = i128::MAX;
    account.total = i128::MAX;
    assert!(matches!(
        manage_transaction(&mut account, &deposit(1, 1, 1)),
        Err(TransactionError::BalanceOverflow)
    ));
    assert_eq!(account.available, i128::MAX);
    assert_eq!(account.total, i128::MAX);
    assert!(account.transactions.is_empty());
}

#[test]
fn error_messages_describe_each_rejection() {
    assert_eq!(TransactionError::InsufficientFund.message(), "No available fund");
    assert_eq!(
        TransactionError::InvalidReferencedTransaction.message(),
        "Cannot find the transaction based on tx id"
    );
    assert_eq!(
        TransactionError::ReferencedTransactionIsNotDisputed.message(),
        "Referenced transaction not under dispute"
    );
    assert_eq!(
        TransactionError::NoAmountForTransaction.message(),
        "Invalid transaction, it doesn't have amount"
    );
    assert_eq!(TransactionError::ExistingTransactionId.message(), "Transaction id is already exists");
    assert_eq!(TransactionError::BalanceOverflow.message(), "Balance out of range");
}
