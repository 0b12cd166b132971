//! The balance store: a persistent mapping from [`Address`] to an unsigned
//! 256-bit balance, where an absent key means balance zero.
//!
//! Besides `read` and `write`, the store carries the ledger's single
//! debit/credit primitive, [`BalanceStore::transfer`]: debit the sender,
//! then re-read the recipient (so that a self-transfer observes its own
//! debit and nets to no change), then credit. The store also exposes the
//! sum of all balances as a specification-level quantity, so that the
//! ledger can tie it to the supply counter.

use vstd::prelude::*;

use crate::address::Address;
use crate::amount::{u256_limit, U256};
use crate::error::Error;

verus! {

/// Every key occurs at most once.
spec fn distinct_keys(s: Seq<(Address, U256)>) -> bool {
    forall|i: int, j: int| 0 <= i < j < s.len() ==> s[i].0 != s[j].0
}

/// The balance recorded for `a`: the first entry with key `a`, or zero.
spec fn lookup(s: Seq<(Address, U256)>, a: Address) -> nat
    decreases s.len(),
{
    if s.len() == 0 {
        0
    } else if s[0].0 == a {
        s[0].1@
    } else {
        lookup(s.skip(1), a)
    }
}

/// The sum of all recorded balances.
spec fn total(s: Seq<(Address, U256)>) -> nat
    decreases s.len(),
{
    if s.len() == 0 {
        0
    } else {
        s[0].1@ + total(s.skip(1))
    }
}

proof fn lemma_lookup_absent(s: Seq<(Address, U256)>, a: Address)
    requires
        forall|i: int| 0 <= i < s.len() ==> s[i].0 != a,
    ensures
        lookup(s, a) == 0,
    decreases s.len(),
{
    if s.len() > 0 {
        assert(s[0].0 != a);
        assert(forall|i: int| 0 <= i < s.skip(1).len() ==> s.skip(1)[i].0 != a);
        lemma_lookup_absent(s.skip(1), a);
    }
}

proof fn lemma_lookup_at(s: Seq<(Address, U256)>, i: int)
    requires
        distinct_keys(s),
        0 <= i < s.len(),
    ensures
        lookup(s, s[i].0) == s[i].1@,
    decreases s.len(),
{
    if i > 0 {
        assert(s[0].0 != s[i].0);
        assert(distinct_keys(s.skip(1)));
        assert(s.skip(1)[i - 1] == s[i]);
        lemma_lookup_at(s.skip(1), i - 1);
    }
}

proof fn lemma_lookup_bound(s: Seq<(Address, U256)>, a: Address)
    ensures
        lookup(s, a) < u256_limit(),
    decreases s.len(),
{
    if s.len() > 0 && s[0].0 != a {
        lemma_lookup_bound(s.skip(1), a);
    }
}

proof fn lemma_lookup_le_total(s: Seq<(Address, U256)>, a: Address)
    ensures
        lookup(s, a) <= total(s),
    decreases s.len(),
{
    if s.len() > 0 {
        lemma_lookup_le_total(s.skip(1), a);
    }
}

proof fn lemma_two_lookups_le_total(s: Seq<(Address, U256)>, a: Address, b: Address)
    requires
        a != b,
    ensures
        lookup(s, a) + lookup(s, b) <= total(s),
    decreases s.len(),
{
    if s.len() > 0 {
        if s[0].0 == a {
            lemma_lookup_le_total(s.skip(1), b);
        } else if s[0].0 == b {
            lemma_lookup_le_total(s.skip(1), a);
        } else {
            lemma_two_lookups_le_total(s.skip(1), a, b);
        }
    }
}

proof fn lemma_lookup_update(s: Seq<(Address, U256)>, i: int, v: U256, x: Address)
    requires
        distinct_keys(s),
        0 <= i < s.len(),
    ensures
        lookup(s.update(i, (s[i].0, v)), x) == if x == s[i].0 {
            v@
        } else {
            lookup(s, x)
        },
    decreases s.len(),
{
    let t = s.update(i, (s[i].0, v));
    if i == 0 {
        assert(t.skip(1) =~= s.skip(1));
        if x == s[0].0 {
        } else {
            assert(lookup(t, x) == lookup(t.skip(1), x));
            assert(lookup(s, x) == lookup(s.skip(1), x));
        }
    } else {
        assert(distinct_keys(s.skip(1)));
        assert(s.skip(1)[i - 1] == s[i]);
        lemma_lookup_update(s.skip(1), i - 1, v, x);
        assert(t.skip(1) =~= s.skip(1).update(i - 1, (s[i].0, v)));
        assert(t[0] == s[0]);
        if x == s[0].0 {
            assert(s[0].0 != s[i].0);
        }
    }
}

proof fn lemma_lookup_push(s: Seq<(Address, U256)>, a: Address, v: U256, x: Address)
    requires
        forall|i: int| 0 <= i < s.len() ==> s[i].0 != a,
    ensures
        lookup(s.push((a, v)), x) == if x == a {
            v@
        } else {
            lookup(s, x)
        },
    decreases s.len(),
{
    let t = s.push((a, v));
    if s.len() == 0 {
        assert(t[0] == (a, v));
        if x != a {
            assert(t.skip(1) =~= Seq::<(Address, U256)>::empty());
            assert(lookup(t, x) == lookup(t.skip(1), x));
        }
    } else {
        lemma_lookup_push(s.skip(1), a, v, x);
        assert(t.skip(1) =~= s.skip(1).push((a, v)));
        assert(t[0] == s[0]);
    }
}

/// Overwriting the entry at `i` changes the sum by the difference of the
/// values and changes no other key's balance.
proof fn lemma_update_entry(s: Seq<(Address, U256)>, i: int, v: U256)
    requires
        distinct_keys(s),
        0 <= i < s.len(),
    ensures
        distinct_keys(s.update(i, (s[i].0, v))),
        total(s.update(i, (s[i].0, v))) + s[i].1@ == total(s) + v@,
        forall|x: Address|
            lookup(s.update(i, (s[i].0, v)), x) == if x == s[i].0 {
                v@
            } else {
                lookup(s, x)
            },
    decreases s.len(),
{
    let t = s.update(i, (s[i].0, v));
    assert forall|x: Address|
        lookup(t, x) == if x == s[i].0 {
            v@
        } else {
            lookup(s, x)
        } by {
        lemma_lookup_update(s, i, v, x);
    }
    if i == 0 {
        assert(t.skip(1) =~= s.skip(1));
    } else {
        assert(distinct_keys(s.skip(1)));
        assert(s.skip(1)[i - 1] == s[i]);
        lemma_update_entry(s.skip(1), i - 1, v);
        assert(t.skip(1) =~= s.skip(1).update(i - 1, (s[i].0, v)));
        assert(t[0] == s[0]);
    }
}

/// Appending a fresh key adds its value to the sum and changes no other
/// key's balance.
proof fn lemma_push_entry(s: Seq<(Address, U256)>, a: Address, v: U256)
    requires
        distinct_keys(s),
        forall|i: int| 0 <= i < s.len() ==> s[i].0 != a,
    ensures
        distinct_keys(s.push((a, v))),
        total(s.push((a, v))) == total(s) + v@,
        forall|x: Address|
            lookup(s.push((a, v)), x) == if x == a {
                v@
            } else {
                lookup(s, x)
            },
    decreases s.len(),
{
    let t = s.push((a, v));
    assert forall|x: Address|
        lookup(t, x) == if x == a {
            v@
        } else {
            lookup(s, x)
        } by {
        lemma_lookup_push(s, a, v, x);
    }
    if s.len() == 0 {
        assert(t[0] == (a, v));
        assert(t.skip(1) =~= Seq::<(Address, U256)>::empty());
        assert(total(t.skip(1)) == 0);
        assert(total(t) == v@ + total(t.skip(1)));
    } else {
        assert(distinct_keys(s.skip(1)));
        lemma_push_entry(s.skip(1), a, v);
        assert(t.skip(1) =~= s.skip(1).push((a, v)));
        assert(t[0] == s[0]);
        assert(total(t) == s[0].1@ + total(t.skip(1)));
        assert(total(s) == s[0].1@ + total(s.skip(1)));
        assert(forall|i: int, j: int| 0 <= i < j < t.len() ==> t[i].0 != t[j].0) by {
            assert(forall|i: int| 0 <= i < s.len() ==> t[i] == s[i]);
            assert(t[s.len() as int].0 == a);
        }
    }
}

/// Whether crediting `recipient` with `amount` after debiting `sender`
/// would exceed the 256-bit range. A self-transfer never overflows: the
/// credit lands on the already-debited entry.
pub open spec fn transfer_would_overflow(
    pre: BalanceStore,
    sender: Address,
    recipient: Address,
    amount: nat,
) -> bool {
    sender != recipient && pre.bal(recipient) + amount >= u256_limit()
}

/// Persistent mapping Address -> unsigned 256-bit balance; an absent key
/// means zero.
pub struct BalanceStore {
    entries: Vec<(Address, U256)>,
}

impl BalanceStore {
    /// Each address has at most one entry.
    pub closed spec fn wf(self) -> bool {
        distinct_keys(self.entries@)
    }

    /// The balance of `a` (zero when no entry exists).
    pub closed spec fn bal(self, a: Address) -> nat {
        lookup(self.entries@, a)
    }

    /// The sum of all balances.
    pub closed spec fn sum(self) -> nat {
        total(self.entries@)
    }

    /// Every balance stays below `2^256`.
    pub proof fn lemma_bal_bound(self, a: Address)
        ensures
            self.bal(a) < u256_limit(),
    {
        lemma_lookup_bound(self.entries@, a);
    }

    /// No balance exceeds the sum of all balances.
    pub proof fn lemma_bal_le_sum(self, a: Address)
        ensures
            self.bal(a) <= self.sum(),
    {
        lemma_lookup_le_total(self.entries@, a);
    }

    /// Two distinct holders never hold more than the sum together.
    pub proof fn lemma_two_bals_le_sum(self, a: Address, b: Address)
        requires
            a != b,
        ensures
            self.bal(a) + self.bal(b) <= self.sum(),
    {
        lemma_two_lookups_le_total(self.entries@, a, b);
    }

    /// An empty store: every balance is zero.
    pub fn new() -> (r: BalanceStore)
        ensures
            r.wf(),
            r.sum() == 0,
            forall|x: Address| r.bal(x) == 0,
    {
        let r = BalanceStore { entries: Vec::new() };
        proof {
            assert(forall|x: Address| r.bal(x) == 0) by {
                assert(forall|x: Address| lookup(r.entries@, x) == 0);
            }
        }
        r
    }

    fn find(&self, a: Address) -> (r: Option<usize>)
        ensures
            match r {
                Some(i) => i < self.entries@.len() && self.entries@[i as int].0 == a,
                None => forall|j: int| 0 <= j < self.entries@.len() ==> self.entries@[j].0 != a,
            },
    {
        let mut i: usize = 0;
        while i < self.entries.len()
            invariant
                i <= self.entries@.len(),
                forall|j: int| 0 <= j < i ==> self.entries@[j].0 != a,
            decreases self.entries@.len() - i,
        {
            if self.entries[i].0 == a {
                return Some(i);
            }
            i = i + 1;
        }
        None
    }

    /// Returns the stored balance, or zero when the address has no entry.
    /// Never fails.
    pub fn read(&self, a: Address) -> (r: U256)
        requires
            self.wf(),
        ensures
            r@ == self.bal(a),
    {
        match self.find(a) {
            Some(i) => {
                proof {
                    lemma_lookup_at(self.entries@, i as int);
                }
                self.entries[i].1
            },
            None => {
                proof {
                    lemma_lookup_absent(self.entries@, a);
                }
                U256::zero()
            },
        }
    }

    /// Unconditional overwrite of the balance of `a`. Never fails; the sum
    /// of balances changes by the difference between the new and the old
    /// value.
    pub fn write(&mut self, a: Address, v: U256)
        requires
            old(self).wf(),
        ensures
            final(self).wf(),
            forall|x: Address|
                final(self).bal(x) == if x == a {
                    v@
                } else {
                    old(self).bal(x)
                },
            final(self).sum() + old(self).bal(a) == old(self).sum() + v@,
    {
        match self.find(a) {
            Some(i) => {
                proof {
                    lemma_lookup_at(self.entries@, i as int);
                    lemma_update_entry(self.entries@, i as int, v);
                }
                self.entries[i] = (a, v);
            },
            None => {
                proof {
                    lemma_lookup_absent(self.entries@, a);
                    lemma_push_entry(self.entries@, a, v);
                }
                self.entries.push((a, v));
            },
        }
    }

    /// The ledger's debit/credit primitive: debit `sender`, then re-read
    /// and credit `recipient`, so that a self-transfer nets to no change.
    ///
    /// Succeeds exactly when the sender holds at least `amount` and the
    /// credit fits in 256 bits; a failing call reports which check failed
    /// and leaves every balance as it was. The sum of all balances is
    /// preserved either way.
    pub fn transfer(&mut self, sender: Address, recipient: Address, amount: U256) -> (r: Result<
        (),
        Error,
    >)
        requires
            old(self).wf(),
        ensures
            final(self).wf(),
            r is Ok <==> amount@ <= old(self).bal(sender) && !transfer_would_overflow(
                *old(self),
                sender,
                recipient,
                amount@,
            ),
            amount@ > old(self).bal(sender) ==> r == Err::<(), Error>(Error::InsufficientBalance),
            amount@ <= old(self).bal(sender) && transfer_would_overflow(
                *old(self),
                sender,
                recipient,
                amount@,
            ) ==> r == Err::<(), Error>(Error::Overflow),
            r is Ok ==> forall|x: Address|
                final(self).bal(x) == old(self).bal(x) - (if x == sender {
                    amount@
                } else {
                    0
                }) + (if x == recipient {
                    amount@
                } else {
                    0
                }),
            r is Err ==> forall|x: Address| final(self).bal(x) == old(self).bal(x),
            final(self).sum() == old(self).sum(),
    {
        let sender_balance = self.read(sender);
        let sender_new = match sender_balance.checked_sub(&amount) {
            Some(v) => v,
            None => {
                return Err(Error::InsufficientBalance);
            },
        };
        // Debit first: when sender == recipient, the re-read below observes
        // the debited value, so the operation nets to no change.
        self.write(sender, sender_new);
        let recipient_balance = self.read(recipient);
        let recipient_new = match recipient_balance.checked_add(&amount) {
            Some(v) => v,
            None => {
                proof {
                    old(self).lemma_bal_bound(sender);
                }
                // Put the debit back: a failing call leaves no trace.
                self.write(sender, sender_balance);
                return Err(Error::Overflow);
            },
        };
        self.write(recipient, recipient_new);
        Ok(())
    }
}

} // verus!
