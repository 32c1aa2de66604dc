//! A map keyed by object id, kept as a vector of entries with distinct keys.
use vstd::prelude::*;

use crate::ids::ObjectId;

verus! {

pub struct ObjectMap<V> {
    entries: Vec<(ObjectId, V)>,
    model: Ghost<Map<ObjectId, V>>,
}

impl<V> View for ObjectMap<V> {
    type V = Map<ObjectId, V>;

    closed spec fn view(&self) -> Map<ObjectId, V> {
        self.model@
    }
}

impl<V> ObjectMap<V> {
    /// The entries have distinct keys, and are exactly the pairs of the map.
    pub closed spec fn wf(&self) -> bool {
        &&& forall|i: int, j: int|
            0 <= i < j < self.entries@.len() ==> #[trigger] self.entries@[i].0
                != #[trigger] self.entries@[j].0
        &&& forall|i: int|
            0 <= i < self.entries@.len() ==> self.model@.contains_key(#[trigger] self.entries@[i].0)
                && self.model@[self.entries@[i].0] == self.entries@[i].1
        &&& forall|k: ObjectId|
            #[trigger] self.model@.contains_key(k) ==> exists|i: int|
                0 <= i < self.entries@.len() && #[trigger] self.entries@[i].0 == k
    }

    /// The key of the entry at position `i`.
    pub closed spec fn key_at(&self, i: int) -> ObjectId {
        self.entries@[i].0
    }

    /// The entries, in their order.
    pub closed spec fn entry_seq(&self) -> Seq<(ObjectId, V)> {
        self.entries@
    }

    pub proof fn lemma_entry_seq(&self)
        requires
            self.wf(),
        ensures
            self.entry_seq().len() == self.spec_len(),
            forall|i: int| 0 <= i < self.spec_len() ==> (#[trigger] self.entry_seq()[i]).0 == self.key_at(i)
                && self.entry_seq()[i].1 == self@[self.key_at(i)],
    {
    }

    /// The entries, in their order.
    pub fn into_entries(self) -> (r: Vec<(ObjectId, V)>)
        ensures
            r@ == self.entry_seq(),
    {
        self.entries
    }

    /// The number of entries.
    pub closed spec fn spec_len(&self) -> nat {
        self.entries@.len()
    }

    pub proof fn lemma_keys(&self)
        requires
            self.wf(),
        ensures
            self@.dom().finite(),
            self@.dom().len() == self.spec_len(),
            forall|i: int| 0 <= i < self.spec_len() ==> self@.contains_key(#[trigger] self.key_at(i)),
            forall|k: ObjectId|
                #[trigger] self@.contains_key(k) ==> exists|i: int|
                    0 <= i < self.spec_len() && self.key_at(i) == k,
            forall|i: int, j: int|
                0 <= i < j < self.spec_len() ==> #[trigger] self.key_at(i) != #[trigger] self.key_at(j),
    {
        let keys = self.entries@.map_values(|e: (ObjectId, V)| e.0);
        assert forall|i: int, j: int| 0 <= i < j < keys.len() implies keys[i] != keys[j] by {
            assert(keys[i] == self.entries@[i].0);
            assert(keys[j] == self.entries@[j].0);
        }
        keys.unique_seq_to_set();
        assert forall|k: ObjectId| #[trigger] self@.contains_key(k) implies exists|i: int|
            0 <= i < self.spec_len() && self.key_at(i) == k by {
            let i = choose|i: int| 0 <= i < self.entries@.len() && #[trigger] self.entries@[i].0 == k;
            assert(self.key_at(i) == k);
        }
        assert(keys.to_set() =~= self@.dom()) by {
            assert forall|k: ObjectId| keys.to_set().contains(k) implies self@.contains_key(k) by {
                let i = choose|i: int| 0 <= i < keys.len() && keys[i] == k;
                assert(self.entries@[i].0 == k);
            }
            assert forall|k: ObjectId| self@.contains_key(k) implies keys.to_set().contains(k) by {
                let i = choose|i: int| 0 <= i < self.entries@.len() && #[trigger] self.entries@[i].0 == k;
                assert(keys[i] == k);
            }
        }
    }

    pub fn new() -> (r: Self)
        ensures
            r.wf(),
            r@ == Map::<ObjectId, V>::empty(),
            r.entry_seq() == Seq::<(ObjectId, V)>::empty(),
    {
        ObjectMap { entries: Vec::new(), model: Ghost(Map::empty()) }
    }

    pub fn len(&self) -> (r: usize)
        requires
            self.wf(),
        ensures
            r == self.spec_len(),
    {
        self.entries.len()
    }

    /// The key of the entry at position `i`.
    pub fn key(&self, i: usize) -> (r: ObjectId)
        requires
            self.wf(),
            i < self.spec_len(),
        ensures
            r == self.key_at(i as int),
    {
        self.entries[i].0
    }

    /// The value of the entry at position `i`.
    pub fn value(&self, i: usize) -> (r: &V)
        requires
            self.wf(),
            i < self.spec_len(),
        ensures
            *r == self@[self.key_at(i as int)],
    {
        &self.entries[i].1
    }

    fn find(&self, k: &ObjectId) -> (r: Option<usize>)
        requires
            self.wf(),
        ensures
            match r {
                Some(i) => i < self.entries@.len() && self.entries@[i as int].0 == *k,
                None => !self@.contains_key(*k),
            },
    {
        let mut i: usize = 0;
        while i < self.entries.len()
            invariant
                self.wf(),
                i <= self.entries@.len(),
                forall|j: int| 0 <= j < i ==> #[trigger] self.entries@[j].0 != *k,
            decreases self.entries@.len() - i,
        {
            if self.entries[i].0 == *k {
                return Some(i);
            }
            i = i + 1;
        }
        None
    }

    pub fn contains_key(&self, k: &ObjectId) -> (r: bool)
        requires
            self.wf(),
        ensures
            r == self@.contains_key(*k),
    {
        self.find(k).is_some()
    }

    pub fn get(&self, k: &ObjectId) -> (r: Option<&V>)
        requires
            self.wf(),
        ensures
            match r {
                Some(v) => self@.contains_key(*k) && *v == self@[*k],
                None => !self@.contains_key(*k),
            },
    {
        match self.find(k) {
            Some(i) => Some(&self.entries[i].1),
            None => None,
        }
    }

    /// The keys, in entry order.
    pub fn keys(&self) -> (r: Vec<ObjectId>)
        requires
            self.wf(),
        ensures
            r@.len() == self.spec_len(),
            forall|i: int| 0 <= i < r@.len() ==> #[trigger] r@[i] == self.key_at(i),
    {
        let mut r: Vec<ObjectId> = Vec::new();
        let mut i: usize = 0;
        while i < self.entries.len()
            invariant
                i <= self.entries@.len(),
                r@.len() == i,
                forall|j: int| 0 <= j < i ==> #[trigger] r@[j] == self.entries@[j].0,
            decreases self.entries@.len() - i,
        {
            r.push(self.entries[i].0);
            i = i + 1;
        }
        r
    }

    /// Takes the entry of `k` out of the map.
    pub fn remove(&mut self, k: &ObjectId) -> (r: Option<V>)
        requires
            old(self).wf(),
        ensures
            final(self).wf(),
            final(self)@ == old(self)@.remove(*k),
            r == old(self)@.get(*k),
    {
        match self.find(k) {
            Some(i) => {
                let ghost old_entries = self.entries@;
                let e = self.entries.remove(i);
                self.model = Ghost(self.model@.remove(*k));
                assert forall|j: int|
                    0 <= j < self.entries@.len() implies self.model@.contains_key(
                    #[trigger] self.entries@[j].0,
                ) && self.model@[self.entries@[j].0] == self.entries@[j].1 by {
                    if j < i {
                        assert(old_entries[j] == self.entries@[j]);
                    } else {
                        assert(old_entries[j + 1] == self.entries@[j]);
                    }
                }
                assert forall|key: ObjectId| #[trigger] self.model@.contains_key(key) implies exists|j: int|
                    0 <= j < self.entries@.len() && #[trigger] self.entries@[j].0 == key by {
                    let j = choose|j: int| 0 <= j < old_entries.len() && #[trigger] old_entries[j].0 == key;
                    if j < i {
                        assert(self.entries@[j] == old_entries[j]);
                    } else {
                        assert(self.entries@[j - 1] == old_entries[j]);
                    }
                }
                assert forall|a: int, b: int|
                    0 <= a < b < self.entries@.len() implies #[trigger] self.entries@[a].0
                    != #[trigger] self.entries@[b].0 by {
                    let oa = if a < i { a } else { a + 1 };
                    let ob = if b < i { b } else { b + 1 };
                    assert(self.entries@[a] == old_entries[oa]);
                    assert(self.entries@[b] == old_entries[ob]);
                }
                Some(e.1)
            },
            None => {
                assert(self.model@.remove(*k) =~= self.model@);
                None
            },
        }
    }

    /// Sets the value of `k`, returning the one it replaces.
    pub fn insert(&mut self, k: ObjectId, v: V) -> (r: Option<V>)
        requires
            old(self).wf(),
        ensures
            final(self).wf(),
            final(self)@ == old(self)@.insert(k, v),
            r == old(self)@.get(k),
    {
        let prev = self.remove(&k);
        let ghost mid = self.entries@;
        self.entries.push((k, v));
        self.model = Ghost(self.model@.insert(k, v));
        assert forall|j: int|
            0 <= j < self.entries@.len() implies self.model@.contains_key(#[trigger] self.entries@[j].0)
            && self.model@[self.entries@[j].0] == self.entries@[j].1 by {
            if j < mid.len() {
                assert(self.entries@[j] == mid[j]);
            }
        }
        assert forall|key: ObjectId| #[trigger] self.model@.contains_key(key) implies exists|j: int|
            0 <= j < self.entries@.len() && #[trigger] self.entries@[j].0 == key by {
            if key == k {
                assert(self.entries@[mid.len() as int].0 == key);
            } else {
                let j = choose|j: int| 0 <= j < mid.len() && #[trigger] mid[j].0 == key;
                assert(self.entries@[j] == mid[j]);
            }
        }
        assert forall|a: int, b: int|
            0 <= a < b < self.entries@.len() implies #[trigger] self.entries@[a].0
            != #[trigger] self.entries@[b].0 by {
            assert(self.entries@[a] == mid[a]);
            if b < mid.len() {
                assert(self.entries@[b] == mid[b]);
            }
        }
        assert(self.model@ =~= old(self)@.insert(k, v));
        prev
    }
}

} // verus!
