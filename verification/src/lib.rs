//! A small ledger engine: it folds a stream of transaction records
//! (deposits, withdrawals, disputes, resolutions, chargebacks) into a
//! per-client account summary, applying the validity rules of each kind.
//!
//! Amounts are integers in minor units; every balance mutation is verified
//! against a mathematical model of the engine state.

pub mod types;
pub mod processor;
pub mod laws;
