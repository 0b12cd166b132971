//! The token ledger: orchestrates the balance store, the allowance store
//! and the supply counter.
//!
//! The ledger's core invariant, [`ERC20::wf`], ties the supply counter to
//! the balance store: the counter always equals the sum of all balances.
//! Every mutating operation requires and re-establishes it; a failing
//! operation reports exactly one [`Error`] kind and leaves the ledger
//! observably unchanged.

use vstd::prelude::*;

use crate::address::Address;
use crate::allowances::AllowanceStore;
use crate::amount::{u256_limit, U256};
use crate::balances::{transfer_would_overflow, BalanceStore};
use crate::error::Error;

verus! {

/// The fungible-token ledger.
pub struct ERC20 {
    name: String,
    symbol: String,
    decimals: u8,
    total_supply: U256,
    balances: BalanceStore,
    allowances: AllowanceStore,
}

/// `pre` and `post` agree on every observable quantity of the ledger.
pub open spec fn same_state(pre: ERC20, post: ERC20) -> bool {
    &&& post.spec_name() == pre.spec_name()
    &&& post.spec_symbol() == pre.spec_symbol()
    &&& post.spec_decimals() == pre.spec_decimals()
    &&& post.spec_total_supply() == pre.spec_total_supply()
    &&& forall|x: Address| post.spec_balance_of(x) == pre.spec_balance_of(x)
    &&& forall|o: Address, s: Address| post.spec_allowance(o, s) == pre.spec_allowance(o, s)
}

/// `pre` and `post` agree on the metadata, the supply counter and every
/// allowance; only balances may differ.
pub open spec fn same_but_balances(pre: ERC20, post: ERC20) -> bool {
    &&& post.spec_name() == pre.spec_name()
    &&& post.spec_symbol() == pre.spec_symbol()
    &&& post.spec_decimals() == pre.spec_decimals()
    &&& post.spec_total_supply() == pre.spec_total_supply()
    &&& forall|o: Address, s: Address| post.spec_allowance(o, s) == pre.spec_allowance(o, s)
}

/// The state change of a successful `transfer(sender, recipient, amount)`:
/// `amount` moves from `sender` to `recipient`, every other balance, every
/// allowance, the supply counter and the metadata stay. When
/// `sender == recipient` the two adjustments cancel and nothing changes.
pub open spec fn transfer_ok_post(
    pre: ERC20,
    post: ERC20,
    sender: Address,
    recipient: Address,
    amount: nat,
) -> bool {
    &&& same_but_balances(pre, post)
    &&& forall|x: Address|
        post.spec_balance_of(x) == pre.spec_balance_of(x) - (if x == sender {
            amount as int
        } else {
            0
        }) + (if x == recipient {
            amount as int
        } else {
            0
        })
}

/// The state change of a successful `approve(caller, spender, amount)`:
/// the (caller, spender) allowance is overwritten with `amount` — the
/// previous amount is discarded, never accumulated — and nothing else
/// changes.
pub open spec fn approve_post(
    pre: ERC20,
    post: ERC20,
    caller: Address,
    spender: Address,
    amount: nat,
) -> bool {
    &&& post.spec_name() == pre.spec_name()
    &&& post.spec_symbol() == pre.spec_symbol()
    &&& post.spec_decimals() == pre.spec_decimals()
    &&& post.spec_total_supply() == pre.spec_total_supply()
    &&& forall|x: Address| post.spec_balance_of(x) == pre.spec_balance_of(x)
    &&& forall|o: Address, s: Address|
        post.spec_allowance(o, s) == if o == caller && s == spender {
            amount as int
        } else {
            pre.spec_allowance(o, s) as int
        }
}

/// The state change of a successful `mint(owner, amount)`: the owner's
/// balance and the supply counter both grow by `amount` in the same
/// operation; nothing else changes.
pub open spec fn mint_ok_post(pre: ERC20, post: ERC20, owner: Address, amount: nat) -> bool {
    &&& post.spec_name() == pre.spec_name()
    &&& post.spec_symbol() == pre.spec_symbol()
    &&& post.spec_decimals() == pre.spec_decimals()
    &&& post.spec_total_supply() == pre.spec_total_supply() + amount
    &&& forall|x: Address|
        post.spec_balance_of(x) == pre.spec_balance_of(x) + (if x == owner {
            amount as int
        } else {
            0
        })
    &&& forall|o: Address, s: Address| post.spec_allowance(o, s) == pre.spec_allowance(o, s)
}

/// The state change of a successful `burn(owner, amount)`: the owner's
/// balance and the supply counter both shrink by `amount` in the same
/// operation; nothing else changes.
pub open spec fn burn_ok_post(pre: ERC20, post: ERC20, owner: Address, amount: nat) -> bool {
    &&& post.spec_name() == pre.spec_name()
    &&& post.spec_symbol() == pre.spec_symbol()
    &&& post.spec_decimals() == pre.spec_decimals()
    &&& post.spec_total_supply() == pre.spec_total_supply() - amount
    &&& forall|x: Address|
        post.spec_balance_of(x) == pre.spec_balance_of(x) - (if x == owner {
            amount as int
        } else {
            0
        })
    &&& forall|o: Address, s: Address| post.spec_allowance(o, s) == pre.spec_allowance(o, s)
}

impl ERC20 {
    /// The ledger's invariant: both stores are well-formed and the supply
    /// counter equals the sum of all balances.
    pub closed spec fn wf(self) -> bool {
        &&& self.balances.wf()
        &&& self.allowances.wf()
        &&& self.total_supply@ == self.balances.sum()
    }

    /// The display name, as set at initialization.
    pub closed spec fn spec_name(self) -> Seq<char> {
        self.name@
    }

    /// The ticker symbol, as set at initialization.
    pub closed spec fn spec_symbol(self) -> Seq<char> {
        self.symbol@
    }

    /// The decimal precision, as set at initialization.
    pub closed spec fn spec_decimals(self) -> u8 {
        self.decimals
    }

    /// The issued-supply counter.
    pub closed spec fn spec_total_supply(self) -> nat {
        self.total_supply@
    }

    /// The balance of `a` (zero when `a` holds nothing).
    pub closed spec fn spec_balance_of(self, a: Address) -> nat {
        self.balances.bal(a)
    }

    /// The allowance `owner` has granted `spender` (zero when none was
    /// granted).
    pub closed spec fn spec_allowance(self, owner: Address, spender: Address) -> nat {
        self.allowances.allowance(owner, spender)
    }

    /// The sum of all balances.
    pub closed spec fn spec_sum_of_balances(self) -> nat {
        self.balances.sum()
    }

    /// The core invariant spelled out: in every well-formed state the
    /// supply counter equals the sum of all balances.
    pub proof fn lemma_supply_equals_sum(self)
        requires
            self.wf(),
        ensures
            self.spec_total_supply() == self.spec_sum_of_balances(),
    {
    }

    /// No single balance exceeds the issued supply.
    pub proof fn lemma_balance_le_supply(self, a: Address)
        requires
            self.wf(),
        ensures
            self.spec_balance_of(a) <= self.spec_total_supply(),
    {
        self.balances.lemma_bal_le_sum(a);
    }

    /// Creates the ledger with the entire initial supply credited to the
    /// deployer's balance entry and the counter set to that same value.
    pub fn new(
        name: String,
        symbol: String,
        decimals: u8,
        initial_supply: U256,
        deployer: Address,
    ) -> (r: ERC20)
        ensures
            r.wf(),
            r.spec_name() == name@,
            r.spec_symbol() == symbol@,
            r.spec_decimals() == decimals,
            r.spec_total_supply() == initial_supply@,
            forall|x: Address|
                r.spec_balance_of(x) == if x == deployer {
                    initial_supply@
                } else {
                    0
                },
            forall|o: Address, s: Address| r.spec_allowance(o, s) == 0,
    {
        let mut balances = BalanceStore::new();
        balances.write(deployer, initial_supply);
        ERC20 {
            name,
            symbol,
            decimals,
            total_supply: initial_supply,
            balances,
            allowances: AllowanceStore::new(),
        }
    }

    /// The display name. Never fails.
    pub fn name(&self) -> (r: String)
        ensures
            r@ == self.spec_name(),
    {
        self.name.clone()
    }

    /// The ticker symbol. Never fails.
    pub fn symbol(&self) -> (r: String)
        ensures
            r@ == self.spec_symbol(),
    {
        self.symbol.clone()
    }

    /// The decimal precision. Never fails.
    pub fn decimals(&self) -> (r: u8)
        ensures
            r == self.spec_decimals(),
    {
        self.decimals
    }

    /// The issued-supply counter. Never fails.
    pub fn total_supply(&self) -> (r: U256)
        ensures
            r@ == self.spec_total_supply(),
    {
        self.total_supply
    }

    /// The balance of `owner`. Never fails.
    pub fn balance_of(&self, owner: Address) -> (r: U256)
        requires
            self.wf(),
        ensures
            r@ == self.spec_balance_of(owner),
    {
        self.balances.read(owner)
    }

    /// The allowance `owner` has granted `spender`. Never fails.
    pub fn allowance(&self, owner: Address, spender: Address) -> (r: U256)
        requires
            self.wf(),
        ensures
            r@ == self.spec_allowance(owner, spender),
    {
        self.allowances.read(owner, spender)
    }

    /// Moves `amount` from `caller` to `recipient`.
    ///
    /// Succeeds exactly when `caller` holds at least `amount` (under the
    /// invariant, the credit can never overflow: no two balances exceed
    /// the issued supply together); otherwise fails with
    /// `InsufficientBalance` and changes nothing. A transfer to oneself
    /// succeeds under the same condition and changes nothing.
    pub fn transfer(&mut self, caller: Address, recipient: Address, amount: U256) -> (r: Result<
        (),
        Error,
    >)
        requires
            old(self).wf(),
        ensures
            final(self).wf(),
            r is Ok <==> amount@ <= old(self).spec_balance_of(caller),
            r is Err ==> r == Err::<(), Error>(Error::InsufficientBalance) && same_state(
                *old(self),
                *final(self),
            ),
            r is Ok ==> transfer_ok_post(*old(self), *final(self), caller, recipient, amount@),
    {
        proof {
            if caller != recipient {
                self.balances.lemma_two_bals_le_sum(caller, recipient);
            }
        }
        self.balances.transfer(caller, recipient, amount)
    }

    /// Moves `amount` from `owner` to `recipient` on the strength of the
    /// allowance `owner` granted `caller`.
    ///
    /// A zero amount succeeds immediately without reading or writing the
    /// allowance, even when none was ever granted. Otherwise the allowance
    /// is checked first (`InsufficientAllowance` when it is too small,
    /// before any balance is touched), then the balance transfer runs, and
    /// only after it succeeds is the decremented allowance written back.
    pub fn transfer_from(
        &mut self,
        caller: Address,
        owner: Address,
        recipient: Address,
        amount: U256,
    ) -> (r: Result<(), Error>)
        requires
            old(self).wf(),
        ensures
            final(self).wf(),
            amount@ == 0 ==> r is Ok && *final(self) == *old(self),
            r is Ok <==> amount@ == 0 || (amount@ <= old(self).spec_allowance(owner, caller)
                && amount@ <= old(self).spec_balance_of(owner)),
            amount@ > 0 && amount@ > old(self).spec_allowance(owner, caller) ==> r == Err::<
                (),
                Error,
            >(Error::InsufficientAllowance) && same_state(*old(self), *final(self)),
            amount@ > 0 && amount@ <= old(self).spec_allowance(owner, caller) && amount@ > old(
                self,
            ).spec_balance_of(owner) ==> r == Err::<(), Error>(Error::InsufficientBalance)
                && same_state(*old(self), *final(self)),
            r is Ok && amount@ > 0 ==> {
                &&& forall|x: Address|
                    final(self).spec_balance_of(x) == old(self).spec_balance_of(x) - (if x == owner {
                        amount@ as int
                    } else {
                        0
                    }) + (if x == recipient {
                        amount@ as int
                    } else {
                        0
                    })
                &&& forall|o: Address, s: Address|
                    final(self).spec_allowance(o, s) == if o == owner && s == caller {
                        old(self).spec_allowance(o, s) - amount@
                    } else {
                        old(self).spec_allowance(o, s) as int
                    }
                &&& final(self).spec_total_supply() == old(self).spec_total_supply()
                &&& final(self).spec_name() == old(self).spec_name()
                &&& final(self).spec_symbol() == old(self).spec_symbol()
                &&& final(self).spec_decimals() == old(self).spec_decimals()
            },
    {
        if amount.is_zero() {
            return Ok(());
        }
        let spender_allowance = self.allowances.read(owner, caller);
        let new_spender_allowance = match spender_allowance.checked_sub(&amount) {
            Some(v) => v,
            None => {
                return Err(Error::InsufficientAllowance);
            },
        };
        proof {
            if owner != recipient {
                self.balances.lemma_two_bals_le_sum(owner, recipient);
            }
        }
        match self.balances.transfer(owner, recipient, amount) {
            Ok(()) => {},
            Err(e) => {
                return Err(e);
            },
        }
        self.allowances.write(owner, caller, new_spender_allowance);
        Ok(())
    }

    /// Overwrites the allowance `caller` grants `spender` with `amount`,
    /// discarding the previous amount entirely. Always succeeds.
    pub fn approve(&mut self, caller: Address, spender: Address, amount: U256) -> (r: Result<
        (),
        Error,
    >)
        requires
            old(self).wf(),
        ensures
            final(self).wf(),
            r is Ok,
            approve_post(*old(self), *final(self), caller, spender, amount@),
    {
        self.allowances.write(caller, spender, amount);
        Ok(())
    }

    /// Issues `amount` new tokens to `owner`: both the balance entry and
    /// the supply counter grow by `amount` in the same operation.
    ///
    /// Succeeds exactly when the grown supply still fits in 256 bits
    /// (under the invariant the owner's balance then fits as well); both
    /// values are computed before either is written, so a failing call
    /// changes nothing.
    pub fn mint(&mut self, owner: Address, amount: U256) -> (r: Result<(), Error>)
        requires
            old(self).wf(),
        ensures
            final(self).wf(),
            r is Ok <==> old(self).spec_total_supply() + amount@ < u256_limit(),
            r is Err ==> r == Err::<(), Error>(Error::Overflow) && same_state(
                *old(self),
                *final(self),
            ),
            r is Ok ==> mint_ok_post(*old(self), *final(self), owner, amount@),
    {
        proof {
            self.balances.lemma_bal_le_sum(owner);
        }
        let balance = self.balances.read(owner);
        let new_balance = match balance.checked_add(&amount) {
            Some(v) => v,
            None => {
                return Err(Error::Overflow);
            },
        };
        let new_total_supply = match self.total_supply.checked_add(&amount) {
            Some(v) => v,
            None => {
                return Err(Error::Overflow);
            },
        };
        self.balances.write(owner, new_balance);
        self.total_supply = new_total_supply;
        Ok(())
    }

    /// Retires `amount` tokens from `owner`: both the balance entry and
    /// the supply counter shrink by `amount` in the same operation.
    ///
    /// Succeeds exactly when `owner` holds at least `amount`; otherwise
    /// fails with `InsufficientBalance` and changes nothing. A
    /// supply-counter underflow would be classified as `Overflow`, but the
    /// invariant (no balance exceeds the supply) proves that branch can
    /// never be taken.
    pub fn burn(&mut self, owner: Address, amount: U256) -> (r: Result<(), Error>)
        requires
            old(self).wf(),
        ensures
            final(self).wf(),
            r is Ok <==> amount@ <= old(self).spec_balance_of(owner),
            r is Err ==> r == Err::<(), Error>(Error::InsufficientBalance) && same_state(
                *old(self),
                *final(self),
            ),
            r is Ok ==> burn_ok_post(*old(self), *final(self), owner, amount@),
    {
        proof {
            self.balances.lemma_bal_le_sum(owner);
        }
        let balance = self.balances.read(owner);
        let new_balance = match balance.checked_sub(&amount) {
            Some(v) => v,
            None => {
                return Err(Error::InsufficientBalance);
            },
        };
        let new_total_supply = match self.total_supply.checked_sub(&amount) {
            Some(v) => v,
            None => {
                // A supply underflow reports `Overflow`; under the
                // invariant this arm is unreachable, since the owner's
                // balance never exceeds the counter.
                return Err(Error::Overflow);
            },
        };
        self.balances.write(owner, new_balance);
        self.total_supply = new_total_supply;
        Ok(())
    }
}

/// A transfer from an address to itself moves no value: whenever
/// `transfer(a, a, amount)` succeeds, every balance — in particular
/// `a`'s — is exactly what it was. (That it succeeds whenever
/// `amount <= balance_of(a)` is the `ensures` of [`ERC20::transfer`].)
pub proof fn lemma_self_transfer_no_op(pre: ERC20, post: ERC20, a: Address, amount: nat)
    requires
        transfer_ok_post(pre, post, a, a, amount),
    ensures
        forall|x: Address| post.spec_balance_of(x) == pre.spec_balance_of(x),
        post.spec_total_supply() == pre.spec_total_supply(),
        forall|o: Address, s: Address| post.spec_allowance(o, s) == pre.spec_allowance(o, s),
{
}

/// Approvals overwrite, never accumulate: after `approve(o, s, x)` and
/// then `approve(o, s, y)`, the allowance of (o, s) is exactly `y`, and
/// every other allowance is what it was at the start.
pub proof fn lemma_approve_overwrite(
    s0: ERC20,
    s1: ERC20,
    s2: ERC20,
    owner: Address,
    spender: Address,
    x: nat,
    y: nat,
)
    requires
        approve_post(s0, s1, owner, spender, x),
        approve_post(s1, s2, owner, spender, y),
    ensures
        s2.spec_allowance(owner, spender) == y,
        forall|o: Address, s: Address|
            !(o == owner && s == spender) ==> s2.spec_allowance(o, s) == s0.spec_allowance(o, s),
        forall|a: Address| s2.spec_balance_of(a) == s0.spec_balance_of(a),
        s2.spec_total_supply() == s0.spec_total_supply(),
{
}

} // verus!
