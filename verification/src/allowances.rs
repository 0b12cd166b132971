//! The allowance store: a persistent mapping from an (owner, spender) pair
//! to the unsigned 256-bit amount the owner has authorized the spender to
//! move on their behalf. An absent pair means zero.
//!
//! `write` is an unconditional overwrite: approving a new amount discards
//! the previous one entirely — there is no increase/decrease-by-delta
//! operation.

use vstd::prelude::*;

use crate::address::{Address, AllowanceKey};
use crate::amount::U256;

verus! {

/// Every (owner, spender) pair occurs at most once.
spec fn distinct_keys(s: Seq<(AllowanceKey, U256)>) -> bool {
    forall|i: int, j: int| 0 <= i < j < s.len() ==> s[i].0 != s[j].0
}

/// The allowance recorded for `k`: the first entry with key `k`, or zero.
spec fn lookup(s: Seq<(AllowanceKey, U256)>, k: AllowanceKey) -> nat
    decreases s.len(),
{
    if s.len() == 0 {
        0
    } else if s[0].0 == k {
        s[0].1@
    } else {
        lookup(s.skip(1), k)
    }
}

proof fn lemma_lookup_absent(s: Seq<(AllowanceKey, U256)>, k: AllowanceKey)
    requires
        forall|i: int| 0 <= i < s.len() ==> s[i].0 != k,
    ensures
        lookup(s, k) == 0,
    decreases s.len(),
{
    if s.len() > 0 {
        assert(s[0].0 != k);
        assert(forall|i: int| 0 <= i < s.skip(1).len() ==> s.skip(1)[i].0 != k);
        lemma_lookup_absent(s.skip(1), k);
    }
}

proof fn lemma_lookup_at(s: Seq<(AllowanceKey, U256)>, i: int)
    requires
        distinct_keys(s),
        0 <= i < s.len(),
    ensures
        lookup(s, s[i].0) == s[i].1@,
    decreases s.len(),
{
    if i > 0 {
        assert(s[0].0 != s[i].0);
        assert(distinct_keys(s.skip(1)));
        assert(s.skip(1)[i - 1] == s[i]);
        lemma_lookup_at(s.skip(1), i - 1);
    }
}

proof fn lemma_lookup_update(s: Seq<(AllowanceKey, U256)>, i: int, v: U256, x: AllowanceKey)
    requires
        distinct_keys(s),
        0 <= i < s.len(),
    ensures
        lookup(s.update(i, (s[i].0, v)), x) == if x == s[i].0 {
            v@
        } else {
            lookup(s, x)
        },
    decreases s.len(),
{
    let t = s.update(i, (s[i].0, v));
    if i == 0 {
        assert(t.skip(1) =~= s.skip(1));
        if x == s[0].0 {
        } else {
            assert(lookup(t, x) == lookup(t.skip(1), x));
            assert(lookup(s, x) == lookup(s.skip(1), x));
        }
    } else {
        assert(distinct_keys(s.skip(1)));
        assert(s.skip(1)[i - 1] == s[i]);
        lemma_lookup_update(s.skip(1), i - 1, v, x);
        assert(t.skip(1) =~= s.skip(1).update(i - 1, (s[i].0, v)));
        assert(t[0] == s[0]);
        if x == s[0].0 {
            assert(s[0].0 != s[i].0);
        }
    }
}

proof fn lemma_lookup_push(s: Seq<(AllowanceKey, U256)>, k: AllowanceKey, v: U256, x: AllowanceKey)
    requires
        forall|i: int| 0 <= i < s.len() ==> s[i].0 != k,
    ensures
        lookup(s.push((k, v)), x) == if x == k {
            v@
        } else {
            lookup(s, x)
        },
    decreases s.len(),
{
    let t = s.push((k, v));
    if s.len() == 0 {
        assert(t[0] == (k, v));
        if x != k {
            assert(t.skip(1) =~= Seq::<(AllowanceKey, U256)>::empty());
            assert(lookup(t, x) == lookup(t.skip(1), x));
        }
    } else {
        lemma_lookup_push(s.skip(1), k, v, x);
        assert(t.skip(1) =~= s.skip(1).push((k, v)));
        assert(t[0] == s[0]);
    }
}

proof fn lemma_push_distinct(s: Seq<(AllowanceKey, U256)>, k: AllowanceKey, v: U256)
    requires
        distinct_keys(s),
        forall|i: int| 0 <= i < s.len() ==> s[i].0 != k,
    ensures
        distinct_keys(s.push((k, v))),
{
    let t = s.push((k, v));
    assert(forall|i: int, j: int| 0 <= i < j < t.len() ==> t[i].0 != t[j].0) by {
        assert(forall|i: int| 0 <= i < s.len() ==> t[i] == s[i]);
        assert(t[s.len() as int].0 == k);
    }
}

/// Persistent mapping (owner, spender) -> unsigned 256-bit allowance; an
/// absent pair means zero.
pub struct AllowanceStore {
    entries: Vec<(AllowanceKey, U256)>,
}

impl AllowanceStore {
    /// Each (owner, spender) pair has at most one entry.
    pub closed spec fn wf(self) -> bool {
        distinct_keys(self.entries@)
    }

    /// The allowance granted by `owner` to `spender` (zero when no entry
    /// exists).
    pub closed spec fn allowance(self, owner: Address, spender: Address) -> nat {
        lookup(self.entries@, AllowanceKey { owner, spender })
    }

    /// An empty store: every allowance is zero.
    pub fn new() -> (r: AllowanceStore)
        ensures
            r.wf(),
            forall|o: Address, s: Address| r.allowance(o, s) == 0,
    {
        let r = AllowanceStore { entries: Vec::new() };
        proof {
            assert forall|o: Address, s: Address| r.allowance(o, s) == 0 by {
                assert(lookup(r.entries@, AllowanceKey { owner: o, spender: s }) == 0);
            }
        }
        r
    }

    fn find(&self, k: AllowanceKey) -> (r: Option<usize>)
        ensures
            match r {
                Some(i) => i < self.entries@.len() && self.entries@[i as int].0 == k,
                None => forall|j: int| 0 <= j < self.entries@.len() ==> self.entries@[j].0 != k,
            },
    {
        let mut i: usize = 0;
        while i < self.entries.len()
            invariant
                i <= self.entries@.len(),
                forall|j: int| 0 <= j < i ==> self.entries@[j].0 != k,
            decreases self.entries@.len() - i,
        {
            if self.entries[i].0 == k {
                return Some(i);
            }
            i = i + 1;
        }
        None
    }

    /// Returns the stored allowance, or zero when the pair has no entry.
    /// Never fails.
    pub fn read(&self, owner: Address, spender: Address) -> (r: U256)
        requires
            self.wf(),
        ensures
            r@ == self.allowance(owner, spender),
    {
        match self.find(AllowanceKey { owner, spender }) {
            Some(i) => {
                proof {
                    lemma_lookup_at(self.entries@, i as int);
                }
                self.entries[i].1
            },
            None => {
                proof {
                    lemma_lookup_absent(self.entries@, AllowanceKey { owner, spender });
                }
                U256::zero()
            },
        }
    }

    /// Unconditional overwrite of the allowance of (`owner`, `spender`):
    /// the previous amount is discarded entirely. Never fails.
    pub fn write(&mut self, owner: Address, spender: Address, v: U256)
        requires
            old(self).wf(),
        ensures
            final(self).wf(),
            forall|o: Address, s: Address|
                final(self).allowance(o, s) == if o == owner && s == spender {
                    v@
                } else {
                    old(self).allowance(o, s)
                },
    {
        let k = AllowanceKey { owner, spender };
        match self.find(k) {
            Some(i) => {
                proof {
                    assert forall|o: Address, s: Address|
                        lookup(
                            self.entries@.update(i as int, (k, v)),
                            AllowanceKey { owner: o, spender: s },
                        ) == if o == owner && s == spender {
                            v@
                        } else {
                            lookup(self.entries@, AllowanceKey { owner: o, spender: s })
                        } by {
                        lemma_lookup_update(
                            self.entries@,
                            i as int,
                            v,
                            AllowanceKey { owner: o, spender: s },
                        );
                    }
                    lemma_lookup_update(self.entries@, i as int, v, k);
                    assert(distinct_keys(self.entries@.update(i as int, (k, v)))) by {
                        assert(forall|j: int|
                            0 <= j < self.entries@.len() ==> self.entries@.update(
                                i as int,
                                (k, v),
                            )[j].0 == self.entries@[j].0);
                    }
                }
                self.entries[i] = (k, v);
            },
            None => {
                proof {
                    assert forall|o: Address, s: Address|
                        lookup(
                            self.entries@.push((k, v)),
                            AllowanceKey { owner: o, spender: s },
                        ) == if o == owner && s == spender {
                            v@
                        } else {
                            lookup(self.entries@, AllowanceKey { owner: o, spender: s })
                        } by {
                        lemma_lookup_push(
                            self.entries@,
                            k,
                            v,
                            AllowanceKey { owner: o, spender: s },
                        );
                    }
                    lemma_push_distinct(self.entries@, k, v);
                }
                self.entries.push((k, v));
            },
        }
    }
}

} // verus!
