//! The batch of writes that a transaction produces.
use vstd::prelude::*;

use crate::ids::{ElasticId, ObjectId};
use crate::table_data::{ElasticDoc, Identified};
use crate::versioned::Record;

verus! {

/// One write of a batch: document id, store version, and the record.
pub type Write<T> = (ElasticId, u64, Identified<T>);

/// A write as the contracts see it: document id, store version, object id, record.
pub type WriteView<V> = (ElasticId, u64, ObjectId, V);

/// The index of the entry for document `id` in `s`, if there is one.
pub open spec fn index_of<V>(s: Seq<WriteView<V>>, id: ElasticId) -> Option<int> {
    if exists|i: int| 0 <= i < s.len() && s[i].0 == id {
        Some(choose|i: int| 0 <= i < s.len() && s[i].0 == id)
    } else {
        None
    }
}

/// `s` with write `w` added: it replaces the entry for the same document,
/// or else goes at the end.
pub open spec fn put<V>(s: Seq<WriteView<V>>, w: WriteView<V>) -> Seq<WriteView<V>> {
    match index_of(s, w.0) {
        Some(i) => s.update(i, w),
        None => s.push(w),
    }
}

/// `s` with the writes of `ws` added in order.
pub open spec fn put_all<V>(s: Seq<WriteView<V>>, ws: Seq<WriteView<V>>) -> Seq<WriteView<V>>
    decreases ws.len(),
{
    if ws.len() == 0 {
        s
    } else {
        put(put_all(s, ws.drop_last()), ws.last())
    }
}

/// No two entries of `s` are for the same document.
pub open spec fn distinct_ids<V>(s: Seq<WriteView<V>>) -> bool {
    forall|i: int, j: int| 0 <= i < j < s.len() ==> #[trigger] s[i].0 != #[trigger] s[j].0
}

pub proof fn lemma_put_distinct<V>(s: Seq<WriteView<V>>, w: WriteView<V>)
    requires
        distinct_ids(s),
    ensures
        distinct_ids(put(s, w)),
{
    let t = put(s, w);
    match index_of(s, w.0) {
        Some(i) => {
            assert forall|a: int, b: int| 0 <= a < b < t.len() implies #[trigger] t[a].0
                != #[trigger] t[b].0 by {
                if a == i || b == i {
                    assert(s[i].0 == w.0);
                }
            }
        },
        None => {
            assert forall|a: int, b: int| 0 <= a < b < t.len() implies #[trigger] t[a].0
                != #[trigger] t[b].0 by {
                if b == s.len() {
                    assert(t[a] == s[a]);
                }
            }
        },
    }
}

/// The writes that a transaction produced, one per document; a later write
/// to a document replaces the earlier one.
pub struct UpdateGuard<T: Record> {
    entries: Vec<Write<T>>,
    model: Ghost<Seq<WriteView<T::V>>>,
}

impl<T: Record> View for UpdateGuard<T> {
    type V = Seq<WriteView<T::V>>;

    closed spec fn view(&self) -> Seq<WriteView<T::V>> {
        self.model@
    }
}

impl<T: Record> UpdateGuard<T> {
    pub closed spec fn wf(&self) -> bool {
        &&& distinct_ids(self.model@)
        &&& self.model@.len() == self.entries@.len()
        &&& forall|i: int|
            0 <= i < self.entries@.len() ==> #[trigger] self.model@[i] == (
                self.entries@[i].0,
                self.entries@[i].1,
                self.entries@[i].2.object_id,
                self.entries@[i].2.value@,
            )
    }

    pub fn new() -> (r: Self)
        ensures
            r.wf(),
            r@ == Seq::<WriteView<T::V>>::empty(),
    {
        UpdateGuard { entries: Vec::new(), model: Ghost(Seq::empty()) }
    }

    pub fn len(&self) -> (r: usize)
        requires
            self.wf(),
        ensures
            r == self@.len(),
    {
        self.entries.len()
    }

    /// Adds a write of `value`, for object `object_id`, to document `elastic_id` at `version`.
    pub fn insert(&mut self, object_id: ObjectId, elastic_id: ElasticId, version: u64, value: T)
        requires
            old(self).wf(),
        ensures
            final(self).wf(),
            final(self)@ == put(old(self)@, (elastic_id, version, object_id, value@)),
    {
        let ghost w = (elastic_id, version, object_id, value@);
        proof {
            lemma_put_distinct(self.model@, w);
        }
        let mut i: usize = 0;
        while i < self.entries.len()
            invariant
                i <= self.entries@.len(),
                self.entries@ == old(self).entries@,
                self.model@ == old(self).model@,
                self.wf(),
                old(self).wf(),
                w == (elastic_id, version, object_id, value@),
                distinct_ids(put(self.model@, w)),
                forall|j: int| 0 <= j < i ==> #[trigger] self.model@[j].0 != elastic_id,
            decreases self.entries@.len() - i,
        {
            if self.entries[i].0 == elastic_id {
                proof {
                    assert(self.model@[i as int].0 == elastic_id);
                    let k = choose|k: int| 0 <= k < self.model@.len() && self.model@[k].0 == elastic_id;
                    assert(k == i as int);
                    assert(index_of(self.model@, elastic_id) == Some(i as int));
                }
                let ghost gv = value;
                self.entries.set(i, (elastic_id, version, Identified { object_id, value }));
                assert(self.entries@[i as int].2.value == gv);
                self.model = Ghost(self.model@.update(i as int, w));
                assert forall|j: int| 0 <= j < self.entries@.len() implies #[trigger] self.model@[j] == (
                    self.entries@[j].0,
                    self.entries@[j].1,
                    self.entries@[j].2.object_id,
                    self.entries@[j].2.value@,
                ) by {
                    if j != i {
                        assert(self.model@[j] == old(self).model@[j]);
                        assert(self.entries@[j] == old(self).entries@[j]);
                    } else {
                        assert(self.model@[j] == w);
                    }
                }
                return;
            }
            i = i + 1;
        }
        assert(index_of(self.model@, elastic_id) == None::<int>);
        self.entries.push((elastic_id, version, Identified { object_id, value }));
        self.model = Ghost(self.model@.push(w));
        assert forall|j: int| 0 <= j < self.entries@.len() implies #[trigger] self.model@[j] == (
            self.entries@[j].0,
            self.entries@[j].1,
            self.entries@[j].2.object_id,
            self.entries@[j].2.value@,
        ) by {
            if j < old(self).entries@.len() {
                assert(self.model@[j] == old(self).model@[j]);
                assert(self.entries@[j] == old(self).entries@[j]);
            }
        }
    }

    /// Adds the write of a document.
    pub fn insert_doc(&mut self, object_id: ObjectId, doc: ElasticDoc<T>)
        requires
            old(self).wf(),
        ensures
            final(self).wf(),
            final(self)@ == put(old(self)@, (doc.elastic_id, doc.version, object_id, doc.value@)),
    {
        let ElasticDoc { elastic_id, version, value } = doc;
        self.insert(object_id, elastic_id, version, value);
    }

    /// Writes a new document `elastic_id` at version 0, and returns it.
    pub fn create(&mut self, object_id: ObjectId, elastic_id: ElasticId, value: T) -> (r: ElasticDoc<T>)
        requires
            old(self).wf(),
        ensures
            final(self).wf(),
            r.elastic_id == elastic_id,
            r.version == 0,
            r.value@ == value@,
            final(self)@ == put(old(self)@, (elastic_id, 0u64, object_id, value@)),
    {
        let doc = ElasticDoc::with_id(elastic_id, value);
        self.insert(object_id, elastic_id, 0, doc.value.duplicate());
        doc
    }

    /// Writes the next version of `doc`, transformed by `f`, and returns it.
    pub fn update<F>(&mut self, object_id: ObjectId, doc: ElasticDoc<T>, f: F) -> (r: ElasticDoc<T>) where
        F: FnOnce(T) -> T,
        requires
            old(self).wf(),
            doc.version < u64::MAX,
            f.requires((doc.value,)),
        ensures
            final(self).wf(),
            r.elastic_id == doc.elastic_id,
            r.version == doc.version + 1,
            f.ensures((doc.value,), r.value),
            final(self)@ == put(old(self)@, (r.elastic_id, r.version, object_id, r.value@)),
    {
        let doc = doc.update(f);
        self.insert(object_id, doc.elastic_id, doc.version, doc.value.duplicate());
        doc
    }

    /// Writes the next version of `doc`, transformed by `f`.
    pub fn remove<F>(&mut self, object_id: ObjectId, doc: ElasticDoc<T>, f: F) where
        F: FnOnce(T) -> T,
        requires
            old(self).wf(),
            doc.version < u64::MAX,
            f.requires((doc.value,)),
        ensures
            final(self).wf(),
            exists|v: T|
                f.ensures((doc.value,), v) && final(self)@ == put(
                    old(self)@,
                    (doc.elastic_id, (doc.version + 1) as u64, object_id, v@),
                ),
    {
        let doc = doc.update(f);
        self.insert_doc(object_id, doc);
    }

    /// Writes the next version of `doc` transformed by `prev`, and a new
    /// document `new_id` made by `new` from a copy of the value; returns both.
    pub fn split<F, G>(&mut self, object_id: ObjectId, doc: ElasticDoc<T>, new_id: ElasticId, prev: F, new: G) -> (r: (ElasticDoc<T>, ElasticDoc<T>)) where
        F: FnOnce(T) -> T,
        G: FnOnce(T) -> T,
        requires
            old(self).wf(),
            doc.version < u64::MAX,
            prev.requires((doc.value,)),
            forall|c: T| c@ == doc.value@ ==> new.requires((c,)),
        ensures
            final(self).wf(),
            r.0.elastic_id == doc.elastic_id,
            r.0.version == doc.version + 1,
            prev.ensures((doc.value,), r.0.value),
            r.1.elastic_id == new_id,
            r.1.version == 0,
            exists|c: T| c@ == doc.value@ && new.ensures((c,), r.1.value),
            final(self)@ == put(
                put(old(self)@, (r.0.elastic_id, r.0.version, object_id, r.0.value@)),
                (new_id, 0u64, object_id, r.1.value@),
            ),
    {
        let c = doc.value.duplicate();
        let n = ElasticDoc::with_id(new_id, new(c));
        let p = doc.update(prev);
        self.insert(object_id, p.elastic_id, p.version, p.value.duplicate());
        self.insert(object_id, n.elastic_id, n.version, n.value.duplicate());
        (p, n)
    }

    /// As `split`, returning only the new document.
    pub fn replace<F, G>(&mut self, object_id: ObjectId, doc: ElasticDoc<T>, new_id: ElasticId, prev: F, new: G) -> (r: ElasticDoc<T>) where
        F: FnOnce(T) -> T,
        G: FnOnce(T) -> T,
        requires
            old(self).wf(),
            doc.version < u64::MAX,
            prev.requires((doc.value,)),
            forall|c: T| c@ == doc.value@ ==> new.requires((c,)),
        ensures
            final(self).wf(),
            r.elastic_id == new_id,
            r.version == 0,
            exists|c: T| c@ == doc.value@ && new.ensures((c,), r.value),
            exists|p: T|
                prev.ensures((doc.value,), p) && final(self)@ == put(
                    put(old(self)@, (doc.elastic_id, (doc.version + 1) as u64, object_id, p@)),
                    (new_id, 0u64, object_id, r.value@),
                ),
    {
        let (p, n) = self.split(object_id, doc, new_id, prev, new);
        n
    }

    /// The writes, one per document.
    pub fn extract(self) -> (r: Vec<Write<T>>)
        requires
            self.wf(),
        ensures
            r@.len() == self@.len(),
            forall|i: int|
                0 <= i < r@.len() ==> #[trigger] self@[i] == (
                    r@[i].0,
                    r@[i].1,
                    r@[i].2.object_id,
                    r@[i].2.value@,
                ),
    {
        self.entries
    }

    /// The writes cut into requests of at most `chunk` writes each, in order:
    /// a batch of one write makes one request of one write.
    pub fn into_requests(self, chunk: usize) -> (r: Vec<Vec<Write<T>>>)
        requires
            self.wf(),
            chunk > 0,
        ensures
            r@.len() == (if self@.len() == 0 { 0 } else { (self@.len() - 1) as int / chunk as int + 1 }),
            forall|i: int|
                0 <= i < r@.len() ==> (#[trigger] r@[i])@.len() > 0 && r@[i]@.len() <= chunk,
            forall|i: int| 0 <= i < r@.len() - 1 ==> (#[trigger] r@[i])@.len() == chunk,
            r@.len() > 0 ==> r@.last()@.len() == self@.len() - (r@.len() - 1) * chunk,
            forall|i: int, j: int|
                0 <= i < r@.len() && 0 <= j < r@[i]@.len() ==> self@[i * chunk + j] == (
                    r@[i]@[j].0,
                    r@[i]@[j].1,
                    r@[i]@[j].2.object_id,
                    r@[i]@[j].2.value@,
                ),
    {
        let ghost model = self.model@;
        let ghost all = self.entries@;
        let n = self.entries.len();
        let mut rest = self.entries;
        let mut out: Vec<Vec<Write<T>>> = Vec::new();
        let mut cur: Vec<Write<T>> = Vec::new();
        let mut taken: usize = 0;
        assert(out@.len() * chunk == 0) by (nonlinear_arith)
            requires out@.len() == 0;
        assert(cur@ =~= all.subrange(out@.len() * chunk, 0));
        while taken < n
            invariant
                n == all.len(),
                n == model.len(),
                taken <= n,
                rest@ == all.subrange(taken as int, n as int),
                forall|k: int| 0 <= k < n ==> #[trigger] model[k] == (all[k].0, all[k].1, all[k].2.object_id, all[k].2.value@),
                taken == out@.len() * chunk + cur@.len(),
                cur@.len() < chunk,
                cur@ == all.subrange(out@.len() * chunk, taken as int),
                forall|i: int| 0 <= i < out@.len() ==> (#[trigger] out@[i])@ == all.subrange(i * chunk, (i + 1) * chunk),
            decreases n - taken,
        {
            assert(rest@[0] == all[taken as int]);
            let w = rest.remove(0);
            assert(rest@ =~= all.subrange(taken + 1, n as int));
            cur.push(w);
            taken = taken + 1;
            assert(cur@ =~= all.subrange(out@.len() * chunk, taken as int));
            if cur.len() == chunk {
                let full = cur;
                cur = Vec::new();
                out.push(full);
                assert(taken == out@.len() * chunk) by (nonlinear_arith)
                    requires taken == (out@.len() - 1) * chunk + chunk;
            }
        }
        let ghost full_chunks = out@.len();
        if cur.len() > 0 {
            out.push(cur);
        }
        proof {
            assert forall|i: int| 0 <= i < out@.len() implies (#[trigger] out@[i])@.len() > 0 && out@[i]@.len() <= chunk by {
                if i < full_chunks {
                    assert(out@[i]@ == all.subrange(i * chunk, (i + 1) * chunk));
                    assert((i + 1) * chunk - i * chunk == chunk) by (nonlinear_arith);
                    assert((i + 1) * chunk <= n) by (nonlinear_arith)
                        requires i + 1 <= full_chunks, n >= full_chunks * chunk, chunk > 0;
                }
            }
            assert forall|i: int, j: int| 0 <= i < out@.len() && 0 <= j < out@[i]@.len() implies model[i * chunk + j] == (
                out@[i]@[j].0,
                out@[i]@[j].1,
                out@[i]@[j].2.object_id,
                out@[i]@[j].2.value@,
            ) by {
                assert(0 <= i * chunk) by (nonlinear_arith)
                    requires 0 <= i, chunk > 0;
                if i < full_chunks {
                    assert((i + 1) * chunk <= n) by (nonlinear_arith)
                        requires i + 1 <= full_chunks, n >= full_chunks * chunk, chunk > 0;
                    assert((i + 1) * chunk - i * chunk == chunk) by (nonlinear_arith);
                }
                assert(out@[i]@[j] == all[i * chunk + j]);
            }
            assert forall|i: int| 0 <= i < out@.len() - 1 implies (#[trigger] out@[i])@.len() == chunk by {
                assert(i < full_chunks);
                assert(out@[i]@ == all.subrange(i * chunk, (i + 1) * chunk));
                assert((i + 1) * chunk - i * chunk == chunk) by (nonlinear_arith);
                assert((i + 1) * chunk <= n) by (nonlinear_arith)
                    requires i + 1 <= full_chunks, n >= full_chunks * chunk, chunk > 0;
            }
            if out@.len() > 0 {
                if out@.len() > full_chunks {
                    assert(out@.last()@.len() == n - full_chunks * chunk);
                } else {
                    let i = full_chunks - 1;
                    assert(out@[i]@ == all.subrange(i * chunk, (i + 1) * chunk));
                    assert((i + 1) * chunk - i * chunk == chunk) by (nonlinear_arith);
                    assert((i + 1) * chunk == n) by (nonlinear_arith)
                        requires i + 1 == full_chunks, n == full_chunks * chunk;
                    assert(n - i * chunk == chunk) by (nonlinear_arith)
                        requires i + 1 == full_chunks, n == full_chunks * chunk;
                }
            }
            if n == 0 {
                assert(full_chunks == 0) by (nonlinear_arith)
                    requires 0 == full_chunks * chunk + cur@.len(), chunk > 0;
            } else {
                let q = (n - 1) as int / chunk as int;
                assert(out@.len() == q + 1) by (nonlinear_arith)
                    requires
                        n == full_chunks * chunk + (if out@.len() > full_chunks { n - full_chunks * chunk } else { 0 }),
                        out@.len() == full_chunks || out@.len() == full_chunks + 1,
                        out@.len() > full_chunks <==> n > full_chunks * chunk,
                        n >= full_chunks * chunk,
                        n - full_chunks * chunk < chunk,
                        q == (n - 1) / chunk as int,
                        chunk > 0,
                        n > 0;
            }
        }
        out
    }
}

} // verus!
