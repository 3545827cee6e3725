//! The value types of the ledger: one decoded entry, its kind, and the
//! typed rejections the transaction engine can answer with.

use vstd::prelude::*;

verus! {

/// The kind of one ledger entry.
///
/// `Deposit` and `WithDrawal` carry an amount and can later be referenced
/// by the other three kinds through their transaction id.
#[derive(Clone, Copy, Debug, PartialEq, Eq, Structural)]
pub enum TransactionType {
    Deposit,
    WithDrawal,
    Dispute,
    Resolve,
    ChargeBack,
}

/// One decoded ledger entry.
///
/// `amount` is in minor currency units and is present exactly for
/// `Deposit` and `WithDrawal` entries; the other kinds reference the
/// amount of the entry stored under `tx`.
#[derive(Clone, Copy, Debug, PartialEq)]
pub struct Transaction {
    pub trans_type: TransactionType,
    pub client: u16,
    pub tx: u32,
    pub amount: Option<u64>,
}

/// A business-rule rejection of one entry. The engine leaves the ledger
/// exactly as it was whenever it answers with one of these.
#[derive(Clone, Copy, Debug, PartialEq, Eq, Structural)]
pub enum TransactionError {
    /// A withdrawal would have driven the available balance below zero.
    InsufficientFund,
    /// A dispute, resolve or chargeback referenced a `tx` id with no
    /// stored entry in the client's history.
    InvalidReferencedTransaction,
    /// A resolve or chargeback referenced an entry that is not under
    /// dispute.
    ReferencedTransactionIsNotDisputed,
    /// A deposit or withdrawal arrived without an amount.
    NoAmountForTransaction,
    /// A deposit or withdrawal reused a `tx` id already stored in some
    /// account's history.
    ExistingTransactionId,
    /// Applying the entry would have pushed a balance outside the range
    /// a signed machine integer can hold.
    BalanceOverflow,
}

impl TransactionError {
    /// The text `message` returns for each rejection.
    pub open spec fn spec_message(self) -> Seq<char> {
        match self {
            TransactionError::InsufficientFund => "No available fund"@,
            TransactionError::InvalidReferencedTransaction => {
                "Cannot find the transaction based on tx id"@
            },
            TransactionError::ReferencedTransactionIsNotDisputed => {
                "Referenced transaction not under dispute"@
            },
            TransactionError::NoAmountForTransaction => {
                "Invalid transaction, it doesn't have amount"@
            },
            TransactionError::ExistingTransactionId => "Transaction id is already exists"@,
            TransactionError::BalanceOverflow => "Balance out of range"@,
        }
    }

    /// A short human-readable description of the rejection.
    pub fn message(&self) -> (r: &'static str)
        ensures
            r@ == self.spec_message(),
    {
        match self {
            TransactionError::InsufficientFund => "No available fund",
            TransactionError::InvalidReferencedTransaction => {
                "Cannot find the transaction based on tx id"
            },
            TransactionError::ReferencedTransactionIsNotDisputed => {
                "Referenced transaction not under dispute"
            },
            TransactionError::NoAmountForTransaction => {
                "Invalid transaction, it doesn't have amount"
            },
            TransactionError::ExistingTransactionId => "Transaction id is already exists",
            TransactionError::BalanceOverflow => "Balance out of range",
        }
    }
}

} // verus!
