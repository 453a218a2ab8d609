//! The index layer: an unordered set of offer ids per address.
//!
//! Each address maps to a bucket of ids. Insertion appends, removal is by
//! swap-remove (the last id takes the removed one's slot), so iteration order
//! is unspecified and may change across removals; membership is what the
//! contracts promise. Removing an id that is not present is a no-op.

use std::collections::HashMap;
use vstd::prelude::*;

use crate::offer::{Address, OfferId};

verus! {

broadcast use vstd::std_specs::hash::group_hash_axioms;

/// A sequence with no repeated elements.
pub open spec fn no_dups(s: Seq<u64>) -> bool {
    forall|i: int, j: int| 0 <= i < j < s.len() ==> s[i] != s[j]
}

/// Offer ids grouped by address, for enumeration without scanning the store.
pub struct OfferIndex {
    buckets: HashMap<u64, Vec<u64>>,
}

impl OfferIndex {
    /// The ids the index holds for `a`; an address without a bucket holds none.
    pub closed spec fn ids(self, a: Address) -> Seq<OfferId> {
        if self.buckets@.dom().contains(a) {
            self.buckets@[a]@
        } else {
            Seq::<u64>::empty()
        }
    }

    /// No bucket holds the same id twice.
    pub open spec fn wf(self) -> bool {
        forall|a: Address| no_dups(#[trigger] self.ids(a))
    }

    pub fn new() -> (r: OfferIndex)
        ensures
            r.wf(),
            forall|a: Address| #[trigger] r.ids(a) == Seq::<OfferId>::empty(),
    {
        OfferIndex { buckets: HashMap::new() }
    }

    /// Set-style insertion: appends `id` to `a`'s bucket unless already present.
    pub fn insert(&mut self, a: Address, id: OfferId)
        requires
            old(self).wf(),
        ensures
            final(self).wf(),
            old(self).ids(a).contains(id) ==> final(self).ids(a) == old(self).ids(a),
            !old(self).ids(a).contains(id) ==> final(self).ids(a) == old(self).ids(a).push(id),
            forall|b: Address| b != a ==> final(self).ids(b) == old(self).ids(b),
    {
        let mut bucket = match self.buckets.remove(&a) {
            Some(v) => v,
            None => Vec::new(),
        };
        assert(bucket@ == old(self).ids(a));
        let ghost s = old(self).ids(a);
        if vec_index_of(&bucket, id).is_none() {
            bucket.push(id);
        }
        self.buckets.insert(a, bucket);
        proof {
            assert(self.buckets@ == old(self).buckets@.remove(a).insert(a, bucket));
            assert(self.ids(a) == bucket@);
            assert forall|b: Address| b != a implies self.ids(b) == old(self).ids(b) by {
                assert(self.buckets@.dom().contains(b) == old(self).buckets@.dom().contains(b));
            }
            if !s.contains(id) {
                assert(no_dups(s.push(id))) by {
                    assert forall|i: int, j: int|
                        0 <= i < j < s.push(id).len() implies s.push(id)[i] != s.push(id)[j] by {
                        if j < s.len() {
                            assert(s[i] != s[j]);
                        } else {
                            assert(s.push(id)[j] == id);
                            assert(s.push(id)[i] == s[i]);
                            assert(s.contains(s[i]));
                        }
                    }
                }
            }
            assert forall|b: Address| no_dups(#[trigger] self.ids(b)) by {
                if b != a {
                    assert(self.ids(b) == old(self).ids(b));
                    assert(no_dups(old(self).ids(b)));
                }
            }
        }
    }

    /// Removes `id` from `a`'s bucket by swap-remove; a no-op when absent.
    /// Order within the bucket may change; membership of every other id, and
    /// every other bucket, is untouched.
    pub fn swap_remove(&mut self, a: Address, id: OfferId)
        requires
            old(self).wf(),
        ensures
            final(self).wf(),
            forall|x: OfferId|
                #[trigger] final(self).ids(a).contains(x) <==> (old(self).ids(a).contains(x)
                    && x != id),
            forall|b: Address| b != a ==> final(self).ids(b) == old(self).ids(b),
    {
        let mut bucket = match self.buckets.remove(&a) {
            Some(v) => v,
            None => {
                proof {
                    assert(!old(self).buckets@.dom().contains(a));
                    assert(self.buckets@ == old(self).buckets@.remove(a));
                    assert(old(self).ids(a) == Seq::<u64>::empty());
                    assert(self.ids(a) == Seq::<u64>::empty());
                    assert forall|b: Address| b != a implies self.ids(b) == old(self).ids(b) by {
                        assert(self.buckets@.dom().contains(b) == old(self).buckets@.dom().contains(
                            b,
                        ));
                    }
                    assert forall|b: Address| no_dups(#[trigger] self.ids(b)) by {
                        assert(no_dups(old(self).ids(b)));
                        if b != a {
                            assert(self.ids(b) == old(self).ids(b));
                        }
                    }
                }
                return ;
            },
        };
        assert(bucket@ == old(self).ids(a));
        let ghost s = bucket@;
        match vec_index_of(&bucket, id) {
            Some(i) => {
                bucket.swap_remove(i);
                proof {
                    lemma_swap_remove_membership(s, i as int, bucket@);
                }
            },
            None => {
                assert(!s.contains(id));
            },
        }
        self.buckets.insert(a, bucket);
        proof {
            assert(self.buckets@ == old(self).buckets@.remove(a).insert(a, bucket));
            assert(self.ids(a) == bucket@);
            assert forall|b: Address| b != a implies self.ids(b) == old(self).ids(b) by {
                assert(self.buckets@.dom().contains(b) == old(self).buckets@.dom().contains(b));
            }
            assert forall|b: Address| no_dups(#[trigger] self.ids(b)) by {
                if b != a {
                    assert(self.ids(b) == old(self).ids(b));
                    assert(no_dups(old(self).ids(b)));
                }
            }
        }
    }

    /// A copy of `a`'s bucket, in its current order.
    pub fn list(&self, a: Address) -> (r: Vec<OfferId>)
        ensures
            r@ == self.ids(a),
    {
        let mut r: Vec<u64> = Vec::new();
        match self.buckets.get(&a) {
            None => {
                assert(self.ids(a) == Seq::<u64>::empty());
            },
            Some(bucket) => {
                let mut i: usize = 0;
                while i < bucket.len()
                    invariant
                        0 <= i <= bucket@.len(),
                        r@ == bucket@.subrange(0, i as int),
                    decreases bucket@.len() - i,
                {
                    r.push(bucket[i]);
                    proof {
                        assert(r@ =~= bucket@.subrange(0, i as int + 1));
                    }
                    i += 1;
                }
                assert(r@ =~= bucket@);
            },
        }
        assert(r@ =~= self.ids(a));
        r
    }
}

/// The position of `x` in `v`, if it is there.
fn vec_index_of(v: &Vec<u64>, x: u64) -> (r: Option<usize>)
    ensures
        match r {
            Some(i) => i < v@.len() && v@[i as int] == x,
            None => !v@.contains(x),
        },
{
    let mut i: usize = 0;
    while i < v.len()
        invariant
            0 <= i <= v@.len(),
            forall|j: int| 0 <= j < i ==> v@[j] != x,
        decreases v@.len() - i,
    {
        if v[i] == x {
            return Some(i);
        }
        i += 1;
    }
    assert(!v@.contains(x)) by {
        assert(forall|j: int| 0 <= j < v@.len() ==> v@[j] != x);
    }
    None
}

/// After swap-removing the only occurrence of `s[k]` from a duplicate-free
/// sequence, exactly the other elements remain, still duplicate-free.
proof fn lemma_swap_remove_membership(s: Seq<u64>, k: int, t: Seq<u64>)
    requires
        no_dups(s),
        0 <= k < s.len(),
        t == s.update(k, s.last()).drop_last(),
    ensures
        no_dups(t),
        forall|x: u64| #[trigger] t.contains(x) <==> (s.contains(x) && x != s[k]),
{
    let n = s.len() as int;
    let id = s[k];
    assert(t.len() == n - 1);
    assert(forall|j: int|
        0 <= j < n - 1 ==> t[j] == (if j == k {
            s[n - 1]
        } else {
            s[j]
        }));
    assert forall|x: u64| #[trigger] t.contains(x) implies (s.contains(x) && x != id) by {
        let j = choose|j: int| 0 <= j < t.len() && t[j] == x;
        if j == k {
            assert(s[n - 1] == x);
            assert(s.contains(x));
            if x == id {
                // s would hold id at both k and n - 1
                assert(s[k as int] == s[n - 1] && k < n - 1);
                assert(false);
            }
        } else {
            assert(s[j] == x);
            assert(s.contains(x));
            if x == id {
                assert(s[j] == s[k as int] && j != k);
                assert(false);
            }
        }
    }
    assert forall|x: u64| s.contains(x) && x != id implies #[trigger] t.contains(x) by {
        let j = choose|j: int| 0 <= j < s.len() && s[j] == x;
        assert(j != k);
        if j < n - 1 {
            assert(t[j] == x);
        } else {
            assert(k < n - 1) by {
                assert(s[j] != id);
            }
            assert(t[k as int] == x);
        }
    }
    assert forall|i: int, j: int| 0 <= i < j < t.len() implies t[i] != t[j] by {
        if t[i] == t[j] {
            if i == k {
                assert(s[n - 1] == s[j] && j != n - 1);
            } else if j == k {
                assert(s[i] == s[n - 1] && i != n - 1);
            } else {
                assert(s[i] == s[j] && i != j);
            }
            assert(false);
        }
    }
}

} // verus!
