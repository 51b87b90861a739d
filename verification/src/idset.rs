use crate::envelope::MessageID;
use vstd::prelude::*;

verus! {

broadcast use vstd::seq_lib::seq_to_set_is_finite;

/// A grow-only set of message identifiers, stored as a duplicate-free vector.
/// Only insertion is offered, so the set of ids held can never shrink.
pub struct IdSet {
    pub ids: Vec<MessageID>,
}

impl View for IdSet {
    type V = Set<MessageID>;

    /// The mathematical set of identifiers held.
    open spec fn view(&self) -> Set<MessageID> {
        self.ids@.to_set()
    }
}

impl IdSet {
    /// Well-formedness: the backing vector holds no duplicates, so its length
    /// is the cardinality of the set.
    pub open spec fn inv(&self) -> bool {
        self.ids@.no_duplicates()
    }

    /// The empty set.
    pub fn new() -> (r: IdSet)
        ensures
            r.inv(),
            r@ == Set::<MessageID>::empty(),
            r.ids@.len() == 0,
    {
        let r = IdSet { ids: Vec::new() };
        proof {
            assert(r.ids@.to_set() =~= Set::<MessageID>::empty());
        }
        r
    }

    /// Membership test.
    pub fn contains(&self, v: MessageID) -> (r: bool)
        ensures
            r == self@.contains(v),
    {
        let mut j: usize = 0;
        while j < self.ids.len()
            invariant
                j <= self.ids@.len(),
                forall|t: int| 0 <= t < j ==> self.ids@[t] != v,
            decreases self.ids@.len() - j,
        {
            if self.ids[j] == v {
                return true;
            }
            j = j + 1;
        }
        false
    }

    /// Inserts an id; a no-op when the id is already held.
    pub fn insert(&mut self, v: MessageID)
        requires
            old(self).inv(),
        ensures
            final(self).inv(),
            final(self)@ == old(self)@.insert(v),
            final(self).ids@.len() <= old(self).ids@.len() + 1,
    {
        if !self.contains(v) {
            self.ids.push(v);
            proof {
                assert(self.ids@.drop_last() =~= old(self).ids@);
                assert(self.ids@.no_duplicates());
                assert(self.ids@.to_set() =~= old(self).ids@.to_set().insert(v)) by {
                    assert forall|a: MessageID| self.ids@.to_set().contains(a)
                        implies old(self).ids@.to_set().insert(v).contains(a) by {
                        let t = choose|t: int| 0 <= t < self.ids@.len() && (#[trigger] self.ids@[t]) == a;
                        if t < old(self).ids@.len() {
                            assert(old(self).ids@[t] == a);
                        }
                    };
                    assert forall|a: MessageID| old(self).ids@.to_set().insert(v).contains(a)
                        implies self.ids@.to_set().contains(a) by {
                        if old(self).ids@.to_set().contains(a) {
                            let t = choose|t: int|
                                0 <= t < old(self).ids@.len() && (#[trigger] old(self).ids@[t]) == a;
                            assert(self.ids@[t] == a);
                        } else {
                            assert(self.ids@[self.ids@.len() - 1] == v);
                        }
                    };
                }
            }
        } else {
            proof {
                assert(self@ =~= old(self)@.insert(v));
            }
        }
    }

    /// Number of ids held.
    pub fn size(&self) -> (r: usize)
        ensures
            r == self.ids@.len(),
            self.inv() ==> r == self@.len(),
    {
        proof {
            if self.inv() {
                self.ids@.unique_seq_to_set();
            }
        }
        self.ids.len()
    }

    /// The id stored at a position of the backing vector; lets callers walk
    /// the set.
    pub fn get(&self, j: usize) -> (r: MessageID)
        requires
            j < self.ids@.len(),
        ensures
            r == self.ids@[j as int],
            self@.contains(r),
    {
        proof {
            assert(self.ids@.to_set().contains(self.ids@[j as int]));
        }
        self.ids[j]
    }

    /// Merges every id of `other` into this set.
    pub fn union_with(&mut self, other: &IdSet)
        requires
            old(self).inv(),
        ensures
            final(self).inv(),
            final(self)@ == old(self)@.union(other@),
    {
        let mut j: usize = 0;
        while j < other.ids.len()
            invariant
                self.inv(),
                j <= other.ids@.len(),
                self@ == old(self)@.union(other.ids@.take(j as int).to_set()),
            decreases other.ids@.len() - j,
        {
            let v = other.ids[j];
            self.insert(v);
            proof {
                lemma_take_to_set_extend(other.ids@, j as int);
                assert(self@ =~= old(self)@.union(other.ids@.take(j as int + 1).to_set()));
            }
            j = j + 1;
        }
        proof {
            assert(other.ids@.take(other.ids@.len() as int) =~= other.ids@);
            assert(self@ =~= old(self)@.union(other@));
        }
    }

    /// An identical copy of this set.
    pub fn duplicate(&self) -> (r: IdSet)
        ensures
            r.ids@ == self.ids@,
            r@ == self@,
            r.inv() == self.inv(),
    {
        let mut ids: Vec<MessageID> = Vec::new();
        let mut j: usize = 0;
        while j < self.ids.len()
            invariant
                j <= self.ids@.len(),
                ids@ == self.ids@.take(j as int),
            decreases self.ids@.len() - j,
        {
            ids.push(self.ids[j]);
            proof {
                assert(ids@ =~= self.ids@.take(j as int + 1));
            }
            j = j + 1;
        }
        proof {
            assert(ids@ =~= self.ids@);
        }
        IdSet { ids }
    }
}

/// Extending a prefix of a sequence by one element inserts that element into
/// the prefix's set of elements.
pub(crate) proof fn lemma_take_to_set_extend(s: Seq<MessageID>, j: int)
    requires
        0 <= j < s.len(),
    ensures
        s.take(j + 1).to_set() == s.take(j).to_set().insert(s[j]),
{
    assert forall|a: MessageID| s.take(j + 1).to_set().contains(a)
        implies s.take(j).to_set().insert(s[j]).contains(a) by {
        let t = choose|t: int| 0 <= t < s.take(j + 1).len() && (#[trigger] s.take(j + 1)[t]) == a;
        if t < j {
            assert(s.take(j)[t] == a);
        }
    };
    assert forall|a: MessageID| s.take(j).to_set().insert(s[j]).contains(a)
        implies s.take(j + 1).to_set().contains(a) by {
        if s.take(j).to_set().contains(a) {
            let t = choose|t: int| 0 <= t < s.take(j).len() && (#[trigger] s.take(j)[t]) == a;
            assert(s.take(j + 1)[t] == a);
        } else {
            assert(s.take(j + 1)[j] == a);
        }
    };
    assert(s.take(j + 1).to_set() =~= s.take(j).to_set().insert(s[j]));
}

/// Idempotence of delivery: inserting the same message id into a delivered
/// set twice yields the same set as inserting it once.
pub proof fn lemma_insert_idempotent(s: Set<MessageID>, v: MessageID)
    ensures
        s.insert(v).insert(v) == s.insert(v),
{
    assert(s.insert(v).insert(v) =~= s.insert(v));
}

} // verus!
