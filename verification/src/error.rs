//! The failure kinds a ledger operation can report.

use vstd::prelude::*;

verus! {

/// Why a ledger operation failed. A failing operation leaves the ledger
/// unchanged; see the `ensures` of each operation for exactly when each
/// kind is returned.
#[derive(Clone, Copy, PartialEq, Eq, Structural, Debug)]
pub enum Error {
    /// A debit would take a balance below zero.
    InsufficientBalance,
    /// A delegated spend exceeds the granted allowance.
    InsufficientAllowance,
    /// An addition would exceed the 256-bit range. A burn that would take
    /// the supply counter below zero reports this same kind — arguably a
    /// mislabeling, but part of the ledger's observable behaviour; under
    /// the supply-equals-sum invariant that branch is unreachable anyway.
    Overflow,
    /// The caller lacks the admin capability (raised by the dispatch gate,
    /// never by the ledger's own arithmetic).
    PermissionDenied,
}

} // verus!
