//! Reward reconciliation for delegated and locked-up NEAR accounts.
//!
//! The crate combines the raw balances that a ledger reports for an account
//! at two block heights into reward figures, and folds the figures of a whole
//! portfolio into totals. Every function carries a contract that Verus checks.

pub mod units;
pub mod epoch;
pub mod amount;
pub mod codec;
pub mod primitives;
pub mod reward;
pub mod snapshot;
pub mod order;
pub mod portfolio;
pub mod query;
