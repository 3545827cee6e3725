//! A single-pass ledger processor: deposits, withdrawals and the
//! dispute/resolve/chargeback lifecycle, applied one entry at a time to
//! per-client accounts.
//!
//! Amounts are unsigned integers in minor currency units; balances are
//! signed so that a dispute raised after a withdrawal can drive the
//! available balance below zero, as the business rules allow.

pub mod transaction;
pub mod transaction_manager;
pub mod laws;
