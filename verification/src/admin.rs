//! The admin registry: the set of addresses holding the mint/burn
//! capability.
//!
//! The ledger's arithmetic never consults this set; the dispatch layer
//! checks it before letting a supply change or a registry change through.
//! Seeding the first admin goes through [`AdminSet::seed_admin`], which is
//! not gated: at bootstrap no caller holds the capability yet.

use vstd::prelude::*;

use crate::address::Address;

verus! {

/// The set of addresses with the mint/burn capability.
pub struct AdminSet {
    members: Vec<Address>,
}

impl AdminSet {
    /// Each member is listed once.
    pub closed spec fn wf(self) -> bool {
        forall|i: int, j: int|
            0 <= i < j < self.members@.len() ==> self.members@[i] != self.members@[j]
    }

    /// Whether `a` holds the admin capability.
    pub closed spec fn spec_is_admin(self, a: Address) -> bool {
        self.members@.contains(a)
    }

    /// An empty registry: nobody holds the capability.
    pub fn new() -> (r: AdminSet)
        ensures
            r.wf(),
            forall|x: Address| !r.spec_is_admin(x),
    {
        AdminSet { members: Vec::new() }
    }

    /// The membership gate consumed by the dispatch layer. Never fails.
    pub fn is_admin(&self, a: Address) -> (r: bool)
        ensures
            r == self.spec_is_admin(a),
    {
        let mut i: usize = 0;
        while i < self.members.len()
            invariant
                i <= self.members@.len(),
                forall|j: int| 0 <= j < i ==> self.members@[j] != a,
            decreases self.members@.len() - i,
        {
            if self.members[i] == a {
                return true;
            }
            i = i + 1;
        }
        proof {
            assert(!self.members@.contains(a)) by {
                if self.members@.contains(a) {
                    let j = choose|j: int|
                        0 <= j < self.members@.len() && self.members@[j] == a;
                    assert(self.members@[j] != a);
                }
            }
        }
        false
    }

    /// Grants the capability to `a` without any gate: the bootstrap path
    /// that installs the first admin.
    pub fn seed_admin(&mut self, a: Address)
        requires
            old(self).wf(),
        ensures
            final(self).wf(),
            forall|x: Address|
                final(self).spec_is_admin(x) == (x == a || old(self).spec_is_admin(x)),
    {
        if !self.is_admin(a) {
            self.members.push(a);
            proof {
                let pre = old(self).members@;
                let post = self.members@;
                assert forall|x: Address|
                    self.spec_is_admin(x) == (x == a || old(self).spec_is_admin(x)) by {
                    if post.contains(x) && x != a {
                        let i = choose|i: int| 0 <= i < post.len() && post[i] == x;
                        assert(i < pre.len());
                        assert(pre[i] == x);
                    }
                    if pre.contains(x) {
                        let i = choose|i: int| 0 <= i < pre.len() && pre[i] == x;
                        assert(post[i] == x);
                    }
                    if x == a {
                        assert(post[post.len() - 1] == a);
                    }
                }
                assert(self.wf()) by {
                    assert(forall|i: int| 0 <= i < pre.len() ==> post[i] == pre[i]);
                    assert(post[pre.len() as int] == a);
                    assert(forall|i: int| 0 <= i < pre.len() ==> pre[i] != a);
                }
            }
        }
    }

    /// Revokes the capability of `a`. Leaves every other membership as it
    /// was.
    pub fn revoke_admin(&mut self, a: Address)
        requires
            old(self).wf(),
        ensures
            final(self).wf(),
            forall|x: Address|
                final(self).spec_is_admin(x) == (x != a && old(self).spec_is_admin(x)),
    {
        let n: usize = self.members.len();
        let mut i: usize = 0;
        while i < n
            invariant
                old(self).wf(),
                self.members@ == old(self).members@,
                n == self.members@.len(),
                i <= n,
                forall|j: int| 0 <= j < i ==> self.members@[j] != a,
            decreases n - i,
        {
            if self.members[i] == a {
                let pre = Ghost(self.members@);
                self.members.remove(i);
                proof {
                    let post = self.members@;
                    assert(post == pre@.remove(i as int));
                    assert(forall|p: int|
                        0 <= p < post.len() ==> post[p] == (if p < i {
                            pre@[p]
                        } else {
                            pre@[p + 1]
                        }));
                    assert forall|x: Address|
                        self.spec_is_admin(x) == (x != a && old(self).spec_is_admin(x)) by {
                        if post.contains(x) {
                            let j = choose|j: int| 0 <= j < post.len() && post[j] == x;
                            if j < i {
                                assert(pre@[j] == x);
                                assert(pre@[j] != a);
                            } else {
                                assert(pre@[j + 1] == x);
                                assert(pre@[j + 1] != pre@[i as int]);
                            }
                        }
                        if x != a && pre@.contains(x) {
                            let j = choose|j: int| 0 <= j < pre@.len() && pre@[j] == x;
                            if j < i {
                                assert(post[j] == x);
                            } else {
                                assert(j != i);
                                assert(post[j - 1] == x);
                            }
                        }
                    }
                    assert(self.wf());
                }
                return ;
            }
            i = i + 1;
        }
        proof {
            assert(!self.members@.contains(a)) by {
                if self.members@.contains(a) {
                    let j = choose|j: int|
                        0 <= j < self.members@.len() && self.members@[j] == a;
                    assert(self.members@[j] != a);
                }
            }
        }
    }
}

} // verus!
