//! Unsigned 256-bit token amounts with checked arithmetic.
//!
//! A [`U256`] is two 128-bit limbs; its mathematical value is
//! `hi * 2^128 + lo`, always below `2^256`. Addition and subtraction are
//! checked: they return `None` instead of wrapping.

use vstd::prelude::*;

verus! {

/// `2^128`, the weight of the high limb.
pub open spec fn pow2_128() -> nat {
    0x100000000000000000000000000000000nat
}

/// `2^256`, the first value a [`U256`] cannot hold.
pub open spec fn u256_limit() -> nat {
    0x10000000000000000000000000000000000000000000000000000000000000000nat
}

/// An unsigned 256-bit integer: `hi * 2^128 + lo`.
#[derive(Clone, Copy, PartialEq, Eq, Structural, Debug)]
pub struct U256 {
    pub hi: u128,
    pub lo: u128,
}

impl View for U256 {
    type V = nat;

    open spec fn view(&self) -> nat {
        self.hi as nat * pow2_128() + self.lo as nat
    }
}

impl U256 {
    /// The zero amount.
    pub fn zero() -> (r: U256)
        ensures
            r@ == 0,
    {
        U256 { hi: 0, lo: 0 }
    }

    /// The amount `v`.
    pub fn from_u64(v: u64) -> (r: U256)
        ensures
            r@ == v,
    {
        U256 { hi: 0, lo: v as u128 }
    }

    /// Whether this amount is zero.
    pub fn is_zero(&self) -> (r: bool)
        ensures
            r == (self@ == 0),
    {
        self.hi == 0 && self.lo == 0
    }

    /// Checked addition: `Some` of the exact sum when it fits in 256 bits,
    /// `None` when it would wrap.
    pub fn checked_add(&self, other: &U256) -> (r: Option<U256>)
        ensures
            match r {
                Some(s) => self@ + other@ < u256_limit() && s@ == self@ + other@,
                None => self@ + other@ >= u256_limit(),
            },
    {
        let (lo, carry): (u128, u128) = if other.lo <= u128::MAX - self.lo {
            (self.lo + other.lo, 0)
        } else {
            (self.lo - (u128::MAX - other.lo) - 1, 1)
        };
        assert(lo as nat + carry as nat * pow2_128() == self.lo as nat + other.lo as nat);
        if other.hi <= u128::MAX - self.hi {
            let hi0: u128 = self.hi + other.hi;
            if carry == 0 {
                Some(U256 { hi: hi0, lo })
            } else if hi0 < u128::MAX {
                Some(U256 { hi: hi0 + 1, lo })
            } else {
                assert(self@ + other@ >= u256_limit());
                None
            }
        } else {
            assert(self@ + other@ >= u256_limit());
            None
        }
    }

    /// Checked subtraction: `Some` of the exact difference when `other`
    /// does not exceed `self`, `None` when it would go negative.
    pub fn checked_sub(&self, other: &U256) -> (r: Option<U256>)
        ensures
            match r {
                Some(d) => other@ <= self@ && d@ == self@ - other@,
                None => self@ < other@,
            },
    {
        if other.hi > self.hi || (other.hi == self.hi && other.lo > self.lo) {
            None
        } else if other.lo <= self.lo {
            Some(U256 { hi: self.hi - other.hi, lo: self.lo - other.lo })
        } else {
            Some(U256 { hi: self.hi - other.hi - 1, lo: self.lo + (u128::MAX - other.lo) + 1 })
        }
    }
}

} // verus!
