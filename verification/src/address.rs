//! Ledger identities.
//!
//! An [`Address`] is either an end-user account or a program, each carried
//! as a 256-bit identity hash. Equality is structural; an `Address` is the
//! key type of both the balance store and the allowance store.

use vstd::prelude::*;

verus! {

/// A 256-bit identity hash, split into two 128-bit words.
#[derive(Clone, Copy, PartialEq, Eq, Structural, Debug)]
pub struct IdHash {
    pub hi: u128,
    pub lo: u128,
}

/// A ledger identity: an end-user account or a program.
#[derive(Clone, Copy, PartialEq, Eq, Structural, Debug)]
pub enum Address {
    /// An end-user account, by its account hash.
    Account(IdHash),
    /// A program, by its package hash.
    Contract(IdHash),
}

/// An (owner, spender) pair, the key of an allowance entry.
#[derive(Clone, Copy, PartialEq, Eq, Structural, Debug)]
pub struct AllowanceKey {
    pub owner: Address,
    pub spender: Address,
}

} // verus!
