//! A fungible-token ledger: per-holder balances, per-(owner, spender)
//! allowances and a global issued-supply counter, with transfer, delegated
//! transfer, approval and admin-gated supply adjustment.
//!
//! Every operation is specified and verified: balances and allowances are
//! unsigned 256-bit quantities, decrements fail instead of going negative,
//! additions fail instead of wrapping, and the supply counter always equals
//! the sum of all balances.

pub mod address;
pub mod admin;
pub mod allowances;
pub mod amount;
pub mod balances;
pub mod entry;
pub mod error;
pub mod ledger;
