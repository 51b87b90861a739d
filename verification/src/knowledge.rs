use crate::envelope::MessageID;
use crate::envelope::NodeID;
use crate::idset::IdSet;
use vstd::prelude::*;

verus! {

/// Keys of an association list are pairwise distinct.
pub open spec fn keys_distinct(s: Seq<(NodeID, IdSet)>) -> bool {
    forall|i: int, j: int| 0 <= i < j < s.len() ==> (#[trigger] s[i]).0@ != (#[trigger] s[j]).0@
}

/// The per-neighbor knowledge map: for each neighbor, the grow-only set of
/// message ids believed known to that neighbor. A neighbor without an entry
/// is treated as knowing nothing.
pub struct Knowledge {
    pub entries: Vec<(NodeID, IdSet)>,
}

impl Knowledge {
    /// Well-formedness: one entry per neighbor, each entry's set well-formed.
    pub open spec fn inv(&self) -> bool {
        &&& keys_distinct(self.entries@)
        &&& forall|i: int| 0 <= i < self.entries@.len() ==> (#[trigger] self.entries@[i]).1.inv()
    }

    /// Whether an entry for this neighbor exists.
    pub open spec fn has_key(&self, k: Seq<char>) -> bool {
        exists|i: int| 0 <= i < self.entries@.len() && (#[trigger] self.entries@[i]).0@ == k
    }

    /// The set of ids believed known to a neighbor; empty when the neighbor
    /// has no entry.
    pub open spec fn set_of(&self, k: Seq<char>) -> Set<MessageID> {
        if self.has_key(k) {
            self.entries@[choose|i: int|
                0 <= i < self.entries@.len() && (#[trigger] self.entries@[i]).0@ == k].1@
        } else {
            Set::<MessageID>::empty()
        }
    }

    /// With distinct keys, the entry found at an index is the one `set_of`
    /// speaks of.
    pub proof fn lemma_set_of_at(&self, i: int, k: Seq<char>)
        requires
            self.inv(),
            0 <= i < self.entries@.len(),
            self.entries@[i].0@ == k,
        ensures
            self.has_key(k),
            self.set_of(k) == self.entries@[i].1@,
    {
        assert(self.has_key(k));
        let j = choose|j: int|
            0 <= j < self.entries@.len() && (#[trigger] self.entries@[j]).0@ == k;
        if i < j {
            assert(self.entries@[i].0@ != self.entries@[j].0@);
        } else if j < i {
            assert(self.entries@[j].0@ != self.entries@[i].0@);
        }
    }

    /// An empty map: nothing is believed known to anyone.
    pub fn new() -> (r: Knowledge)
        ensures
            r.inv(),
            r.entries@.len() == 0,
            forall|k: Seq<char>| !(#[trigger] r.has_key(k)),
            forall|k: Seq<char>| #[trigger] r.set_of(k) == Set::<MessageID>::empty(),
    {
        Knowledge { entries: Vec::new() }
    }

    /// The recorded set for a neighbor, when one exists.
    pub fn get<'a>(&'a self, key: &NodeID) -> (r: Option<&'a IdSet>)
        requires
            self.inv(),
        ensures
            match r {
                Some(s) => {
                    &&& self.has_key(key@)
                    &&& s@ == self.set_of(key@)
                    &&& s.inv()
                },
                None => {
                    &&& !self.has_key(key@)
                    &&& self.set_of(key@) == Set::<MessageID>::empty()
                },
            },
    {
        let mut j: usize = 0;
        while j < self.entries.len()
            invariant
                self.inv(),
                j <= self.entries@.len(),
                forall|t: int| 0 <= t < j ==> (#[trigger] self.entries@[t]).0@ != key@,
            decreases self.entries@.len() - j,
        {
            let e = &self.entries[j];
            if e.0 == *key {
                proof {
                    self.lemma_set_of_at(j as int, key@);
                }
                return Some(&e.1);
            }
            j = j + 1;
        }
        None
    }

    /// Records that a neighbor knows every id of `seen`, on top of what it
    /// was already believed to know. A neighbor without an entry gets one,
    /// starting from the empty set.
    pub fn merge(&mut self, key: &NodeID, seen: &IdSet)
        requires
            old(self).inv(),
        ensures
            final(self).inv(),
            final(self).set_of(key@) == old(self).set_of(key@).union(seen@),
            forall|k: Seq<char>| k != key@ ==> #[trigger] final(self).set_of(k) == old(
                self,
            ).set_of(k),
            forall|k: Seq<char>| #[trigger] final(self).has_key(k) == (old(self).has_key(k) || k
                == key@),
            forall|k: Seq<char>| #[trigger]
                old(self).set_of(k).subset_of(final(self).set_of(k)),
    {
        let ghost pre = *old(self);
        let mut j: usize = 0;
        let mut found: bool = false;
        while j < self.entries.len()
            invariant
                *self == pre,
                j <= self.entries@.len(),
                !found ==> forall|t: int|
                    0 <= t < j ==> (#[trigger] self.entries@[t]).0@ != key@,
                found ==> j < self.entries@.len() && self.entries@[j as int].0@ == key@,
            ensures
                found ==> j < self.entries@.len() && self.entries@[j as int].0@ == key@,
                !found ==> forall|t: int|
                    0 <= t < self.entries@.len() ==> (#[trigger] self.entries@[t]).0@ != key@,
            decreases self.entries@.len() - j,
        {
            let e = &self.entries[j];
            if e.0 == *key {
                found = true;
                break;
            }
            j = j + 1;
        }
        if found {
            let (name, mut ids) = self.entries.remove(j);
            ids.union_with(seen);
            self.entries.push((name, ids));
            proof {
                let post = *self;
                let n = pre.entries@.len() as int;
                // index map: post entries are pre's with entry j moved to the end
                assert(post.entries@.len() == n);
                assert(post.entries@[n - 1].0@ == key@);
                assert(post.entries@[n - 1].1@ == pre.entries@[j as int].1@.union(seen@));
                assert(forall|t: int| 0 <= t < j ==> post.entries@[t] == pre.entries@[t]);
                assert(forall|t: int| j <= t < n - 1 ==> post.entries@[t] == pre.entries@[t
                    + 1]);
                assert(keys_distinct(post.entries@)) by {
                    assert forall|a: int, b: int| 0 <= a < b < n implies (#[trigger] post.entries@[a]).0@
                        != (#[trigger] post.entries@[b]).0@ by {
                        let pa: int = if a < j { a } else { a + 1 };
                        let pb: int = if b < n - 1 {
                            if b < j { b } else { b + 1 }
                        } else {
                            j as int
                        };
                        assert(post.entries@[a].0@ == pre.entries@[pa].0@);
                        assert(post.entries@[b].0@ == pre.entries@[pb].0@);
                    };
                }
                assert(post.inv());
                post.lemma_set_of_at(n - 1, key@);
                pre.lemma_set_of_at(j as int, key@);
                assert forall|k: Seq<char>| k != key@ implies #[trigger] post.set_of(k) == pre.set_of(
                    k,
                ) by {
                    lemma_set_of_shift(pre, post, j as int, k, key@);
                }
                assert forall|k: Seq<char>| #[trigger] post.has_key(k) == (pre.has_key(k) || k
                    == key@) by {
                    if post.has_key(k) {
                        let t = choose|t: int|
                            0 <= t < n && (#[trigger] post.entries@[t]).0@ == k;
                        if t < n - 1 {
                            let pt: int = if t < j { t } else { t + 1 };
                            assert(pre.entries@[pt].0@ == k);
                        }
                    }
                    if pre.has_key(k) {
                        let t = choose|t: int|
                            0 <= t < n && (#[trigger] pre.entries@[t]).0@ == k;
                        if t < j {
                            assert(post.entries@[t].0@ == k);
                        } else if t == j {
                            assert(post.entries@[n - 1].0@ == k);
                        } else {
                            assert(post.entries@[t - 1].0@ == k);
                        }
                    }
                }
            }
        } else {
            let mut ids = IdSet::new();
            ids.union_with(seen);
            proof {
                assert(ids@ =~= seen@);
            }
            self.entries.push((key.clone(), ids));
            proof {
                let post = *self;
                let n = pre.entries@.len() as int;
                assert(forall|t: int| 0 <= t < n ==> post.entries@[t] == pre.entries@[t]);
                assert(post.entries@[n].0@ == key@);
                assert(keys_distinct(post.entries@));
                assert(post.inv());
                post.lemma_set_of_at(n, key@);
                assert(!pre.has_key(key@));
                assert(pre.set_of(key@).union(seen@) =~= seen@);
                assert forall|k: Seq<char>| k != key@ implies #[trigger] post.set_of(k) == pre.set_of(
                    k,
                ) by {
                    lemma_set_of_append(pre, post, k, key@);
                }
                assert forall|k: Seq<char>| #[trigger] post.has_key(k) == (pre.has_key(k) || k
                    == key@) by {
                    if post.has_key(k) {
                        let t = choose|t: int|
                            0 <= t < n + 1 && (#[trigger] post.entries@[t]).0@ == k;
                        if t < n {
                            assert(pre.entries@[t].0@ == k);
                        }
                    }
                    if pre.has_key(k) {
                        let t = choose|t: int|
                            0 <= t < n && (#[trigger] pre.entries@[t]).0@ == k;
                        assert(post.entries@[t].0@ == k);
                    }
                }
            }
        }
    }
}

/// After moving the entry of `key` from position `j` to the end, every other
/// key's recorded set is unchanged.
proof fn lemma_set_of_shift(pre: Knowledge, post: Knowledge, j: int, k: Seq<char>, key: Seq<char>)
    requires
        pre.inv(),
        post.inv(),
        0 <= j < pre.entries@.len(),
        post.entries@.len() == pre.entries@.len(),
        pre.entries@[j].0@ == key,
        forall|t: int| 0 <= t < j ==> post.entries@[t] == pre.entries@[t],
        forall|t: int| j <= t < pre.entries@.len() - 1 ==> post.entries@[t] == pre.entries@[t + 1],
        post.entries@[pre.entries@.len() - 1].0@ == key,
        k != key,
    ensures
        post.set_of(k) == pre.set_of(k),
{
    let n = pre.entries@.len() as int;
    if pre.has_key(k) {
        let t = choose|t: int| 0 <= t < n && (#[trigger] pre.entries@[t]).0@ == k;
        assert(t != j);
        pre.lemma_set_of_at(t, k);
        if t < j {
            post.lemma_set_of_at(t, k);
        } else {
            assert(post.entries@[t - 1] == pre.entries@[t]);
            post.lemma_set_of_at(t - 1, k);
        }
    } else {
        if post.has_key(k) {
            let t = choose|t: int| 0 <= t < n && (#[trigger] post.entries@[t]).0@ == k;
            if t < j {
                assert(pre.entries@[t].0@ == k);
            } else if t < n - 1 {
                assert(pre.entries@[t + 1].0@ == k);
            }
            assert(false);
        }
    }
}

/// Appending an entry for a fresh key leaves every other key's recorded set
/// unchanged.
proof fn lemma_set_of_append(pre: Knowledge, post: Knowledge, k: Seq<char>, key: Seq<char>)
    requires
        pre.inv(),
        post.inv(),
        post.entries@.len() == pre.entries@.len() + 1,
        forall|t: int| 0 <= t < pre.entries@.len() ==> post.entries@[t] == pre.entries@[t],
        post.entries@[pre.entries@.len() as int].0@ == key,
        k != key,
    ensures
        post.set_of(k) == pre.set_of(k),
{
    let n = pre.entries@.len() as int;
    if pre.has_key(k) {
        let t = choose|t: int| 0 <= t < n && (#[trigger] pre.entries@[t]).0@ == k;
        pre.lemma_set_of_at(t, k);
        post.lemma_set_of_at(t, k);
    } else {
        if post.has_key(k) {
            let t = choose|t: int| 0 <= t < n + 1 && (#[trigger] post.entries@[t]).0@ == k;
            if t < n {
                assert(pre.entries@[t].0@ == k);
            }
            assert(false);
        }
    }
}

} // verus!
