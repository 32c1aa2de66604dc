//! Data of single-timeline tables: the live record of each object, and the
//! transaction that buffers edits and derives the writes of a commit.
use vstd::prelude::*;

use crate::dual_versioned_data::pending_matches;
use crate::ids::{fresh_id, ElasticId, ObjectId, Timestamp};
use crate::error::Error;
use crate::object_map::ObjectMap;
use crate::operation::{OpFailure, Operation};
use crate::table_data::{ElasticDoc, Identified};
use crate::updates::{put, UpdateGuard, Write, WriteView};
use crate::versioned::{copy_payload, Anchor, SingleRecord, SingleVersionedValue};

verus! {

/// A stored single-timeline record under its document id and version.
pub type SingleVersionedDoc = ElasticDoc<SingleVersionedValue>;

/// What a stored single-timeline document holds.
pub type SingleDocModel = ElasticDoc<SingleRecord>;

/// The next version of document `d`, holding `r`.
pub open spec fn single_bump(d: SingleDocModel, r: SingleRecord) -> SingleDocModel {
    ElasticDoc { elastic_id: d.elastic_id, version: (d.version + 1) as u64, value: r }
}

/// The write of document `d` for object `oid`.
pub open spec fn single_wr(oid: ObjectId, d: SingleDocModel) -> WriteView<SingleRecord> {
    (d.elastic_id, d.version, oid, d.value)
}

/// Commit of one object's pending edit: `Some(v)` to store `v`, `None` to
/// remove. A live object whose payload is unchanged is left alone, unless the
/// table forces updates.
pub open spec fn single_commit_spec(
    b: Seq<WriteView<SingleRecord>>,
    oid: ObjectId,
    prior: Option<SingleDocModel>,
    upd: Option<Seq<u8>>,
    now: Timestamp,
    force_update: bool,
    fa: ElasticId,
) -> (Option<SingleDocModel>, Seq<WriteView<SingleRecord>>) {
    match (prior, upd) {
        (Some(d), Some(v)) => if force_update || d.value.value != v {
            let p = single_bump(d, d.value.removed(now));
            let n = ElasticDoc { elastic_id: fa, version: 0u64, value: d.value.updated(now, v) };
            (Some(n), put(put(b, single_wr(oid, p)), single_wr(oid, n)))
        } else {
            (Some(d), b)
        },
        (Some(d), None) => (None, put(b, single_wr(oid, single_bump(d, d.value.removed(now))))),
        (None, Some(v)) => {
            let n = ElasticDoc { elastic_id: fa, version: 0u64, value: SingleRecord::created(now, v) };
            (Some(n), put(b, single_wr(oid, n)))
        },
        (None, None) => (None, b),
    }
}

/// An update that gives a live object its own payload again, in a table
/// that does not force updates, writes nothing and keeps the record.
pub proof fn lemma_unchanged_payload_is_skipped(
    b: Seq<WriteView<SingleRecord>>,
    oid: ObjectId,
    d: SingleDocModel,
    now: Timestamp,
    fa: ElasticId,
)
    ensures
        single_commit_spec(b, oid, Some(d), Some(d.value.value), now, false, fa) == (Some(d), b),
{
}

/// A changed payload (or any payload, in a table that forces updates) closes
/// the live record at `now`, payload untouched, and opens a new record under
/// a new id from `now` on: the object keeps exactly one live record, and its
/// segments join without gap or overlap.
pub proof fn lemma_single_update_continuity(
    b: Seq<WriteView<SingleRecord>>,
    oid: ObjectId,
    d: SingleDocModel,
    v: Seq<u8>,
    now: Timestamp,
    force_update: bool,
    fa: ElasticId,
)
    requires
        fa != d.elastic_id,
        d.value.version.to.is_none(),
        force_update || d.value.value != v,
    ensures
        ({
            let (o, b2) = single_commit_spec(b, oid, Some(d), Some(v), now, force_update, fa);
            let closed = SingleRecord { version: Anchor { to: Some(now), ..d.value.version }, value: d.value.value };
            &&& o is Some
            &&& o->0.elastic_id == fa && o->0.elastic_id != d.elastic_id
            &&& o->0.value.version.from == now && o->0.value.version.to.is_none()
            &&& o->0.value.value == v
            &&& b2 == put(put(b, (d.elastic_id, (d.version + 1) as u64, oid, closed)), (fa, 0u64, oid, o->0.value))
        }),
{
}

/// A transaction with no edits commits to the state it started from, and
/// writes nothing.
pub proof fn lemma_empty_single_commit(
    data: Map<ObjectId, SingleDocModel>,
    now: Timestamp,
    force_update: bool,
    ids: Seq<ElasticId>,
)
    ensures
        single_commit_all(data, Seq::empty(), Seq::empty(), now, force_update, ids) == (
            data,
            Seq::<WriteView<SingleRecord>>::empty(),
        ),
{
}

/// The state and batch after committing the edits `es` in order.
pub open spec fn single_commit_all(
    data: Map<ObjectId, SingleDocModel>,
    b: Seq<WriteView<SingleRecord>>,
    es: Seq<(ObjectId, Option<Seq<u8>>)>,
    now: Timestamp,
    force_update: bool,
    ids: Seq<ElasticId>,
) -> (Map<ObjectId, SingleDocModel>, Seq<WriteView<SingleRecord>>)
    decreases es.len(),
{
    if es.len() == 0 || ids.len() != es.len() {
        (data, b)
    } else {
        let (d, b1) = single_commit_all(data, b, es.drop_last(), now, force_update, ids.drop_last());
        let (oid, u) = es.last();
        let prior = if d.contains_key(oid) {
            Some(d[oid])
        } else {
            None
        };
        let (o, b2) = single_commit_spec(b1, oid, prior, u, now, force_update, ids.last());
        (
            match o {
                Some(x) => d.insert(oid, x),
                None => d.remove(oid),
            },
            b2,
        )
    }
}

/// The live records that stored records fold into: the last one of each object wins.
pub open spec fn single_load(docs: Seq<WriteView<SingleRecord>>) -> Map<ObjectId, SingleDocModel>
    decreases docs.len(),
{
    if docs.len() == 0 {
        Map::empty()
    } else {
        let (id, version, oid, rec) = docs.last();
        single_load(docs.drop_last()).insert(oid, ElasticDoc { elastic_id: id, version, value: rec })
    }
}

/// The views of stored writes.
pub open spec fn single_writes_view(s: Seq<Write<SingleVersionedValue>>) -> Seq<WriteView<SingleRecord>> {
    s.map_values(|w: Write<SingleVersionedValue>| (w.0, w.1, w.2.object_id, w.2.value@))
}

/// Whether two payloads hold the same bytes.
pub fn payload_eq(a: &Vec<u8>, b: &Vec<u8>) -> (r: bool)
    ensures
        r == (a@ == b@),
{
    if a.len() != b.len() {
        return false;
    }
    let mut i: usize = 0;
    while i < a.len()
        invariant
            a@.len() == b@.len(),
            i <= a@.len(),
            forall|j: int| 0 <= j < i ==> a@[j] == b@[j],
        decreases a@.len() - i,
    {
        if a[i] != b[i] {
            return false;
        }
        i = i + 1;
    }
    assert(a@ =~= b@);
    true
}

/// Commits the pending edit `upd` of object `oid` over its live record `obj`:
/// adds the writes to `updates` and returns the new live record. A new
/// document gets the id `fa`.
pub fn single_commit_object(
    updates: &mut UpdateGuard<SingleVersionedValue>,
    oid: ObjectId,
    obj: Option<SingleVersionedDoc>,
    upd: Option<Vec<u8>>,
    now: Timestamp,
    force_update: bool,
    fa: ElasticId,
) -> (r: Option<SingleVersionedDoc>)
    requires
        old(updates).wf(),
        match obj {
            Some(d) => d.version < u64::MAX,
            None => true,
        },
    ensures
        final(updates).wf(),
        (opt_doc_view(r), final(updates)@) == single_commit_spec(
            old(updates)@,
            oid,
            opt_doc_view(obj),
            opt_payload(upd),
            now,
            force_update,
            fa,
        ),
{
    match (obj, upd) {
        (Some(active), Some(value)) => {
            if force_update || !payload_eq(&active.value.value, &value) {
                let ghost vv = value@;
                let n = updates.replace(
                    oid,
                    active,
                    fa,
                    |v: SingleVersionedValue| -> (r: SingleVersionedValue) ensures r@ == v@.removed(now) { v.remove(now) },
                    move |v: SingleVersionedValue| -> (r: SingleVersionedValue) ensures r@ == v@.updated(now, vv) { v.update(now, value) },
                );
                Some(n)
            } else {
                Some(active)
            }
        },
        (Some(active), None) => {
            updates.remove(
                oid,
                active,
                |v: SingleVersionedValue| -> (r: SingleVersionedValue) ensures r@ == v@.removed(now) { v.remove(now) },
            );
            None
        },
        (None, Some(value)) => {
            let n = updates.create(oid, fa, SingleVersionedValue::new(now, value));
            Some(n)
        },
        (None, None) => None,
    }
}

/// The view of an optional document.
pub open spec fn opt_doc_view(o: Option<SingleVersionedDoc>) -> Option<SingleDocModel> {
    match o {
        Some(d) => Some(d@),
        None => None,
    }
}

/// The pending edits after one bulk edit of `oid`, or why it is refused.
pub open spec fn single_op(
    data: Map<ObjectId, SingleDocModel>,
    p: Map<ObjectId, Option<Seq<u8>>>,
    oid: ObjectId,
    op: Operation<Seq<u8>>,
) -> Result<Map<ObjectId, Option<Seq<u8>>>, OpFailure> {
    match op {
        Operation::Create(v) => if !p.contains_key(oid) && !data.contains_key(oid) {
            Ok(p.insert(oid, Some(v)))
        } else {
            Err(OpFailure::AlreadyExists)
        },
        Operation::Update(v) => if p.contains_key(oid) || data.contains_key(oid) {
            Ok(p.insert(oid, Some(v)))
        } else {
            Err(OpFailure::DoesNotExist)
        },
        Operation::CreateOrUpdate(v) => Ok(p.insert(oid, Some(v))),
        Operation::Remove => if (if p.contains_key(oid) { p[oid].is_some() } else { data.contains_key(oid) }) {
            Ok(p.insert(oid, None))
        } else {
            Err(OpFailure::DoesNotExist)
        },
    }
}

/// The pending edits after the bulk edits `ops` in order, or the first
/// refused edit.
pub open spec fn single_ops(
    data: Map<ObjectId, SingleDocModel>,
    p: Map<ObjectId, Option<Seq<u8>>>,
    ops: Seq<(ObjectId, Operation<Seq<u8>>)>,
) -> Result<Map<ObjectId, Option<Seq<u8>>>, (ObjectId, OpFailure)>
    decreases ops.len(),
{
    if ops.len() == 0 {
        Ok(p)
    } else {
        match single_ops(data, p, ops.drop_last()) {
            Err(e) => Err(e),
            Ok(q) => match single_op(data, q, ops.last().0, ops.last().1) {
                Ok(r) => Ok(r),
                Err(f) => Err((ops.last().0, f)),
            },
        }
    }
}

pub open spec fn ops_view(ops: Seq<(ObjectId, Operation<Vec<u8>>)>) -> Seq<(ObjectId, Operation<Seq<u8>>)> {
    ops.map_values(|o: (ObjectId, Operation<Vec<u8>>)| (o.0, o.1@))
}

proof fn lemma_ops_err(data: Map<ObjectId, SingleDocModel>, p: Map<ObjectId, Option<Seq<u8>>>, s: Seq<(ObjectId, Operation<Seq<u8>>)>, k: int)
    requires
        0 <= k <= s.len(),
        single_ops(data, p, s.take(k)).is_err(),
    ensures
        single_ops(data, p, s) == single_ops(data, p, s.take(k)),
    decreases s.len() - k,
{
    if k < s.len() {
        assert(s.take(k + 1).drop_last() =~= s.take(k));
        lemma_ops_err(data, p, s, k + 1);
    } else {
        assert(s.take(k) =~= s);
    }
}

/// The live record an object's commit leaves.
pub open spec fn single_commit_state(
    oid: ObjectId,
    prior: Option<SingleDocModel>,
    upd: Option<Seq<u8>>,
    now: Timestamp,
    force_update: bool,
    fa: ElasticId,
) -> Option<SingleDocModel> {
    single_commit_spec(Seq::empty(), oid, prior, upd, now, force_update, fa).0
}

/// The live record of `k`, if any.
pub open spec fn single_state_of(m: Map<ObjectId, SingleDocModel>, k: ObjectId) -> Option<SingleDocModel> {
    if m.contains_key(k) {
        Some(m[k])
    } else {
        None
    }
}

/// What a commit of the edits `es` (each object once) leaves for each
/// object: its record is unchanged where it has no edit, and otherwise is
/// what the commit of its own edit makes of its own record, whatever the
/// order of the edits.
pub proof fn lemma_single_commit_all_frame(
    data: Map<ObjectId, SingleDocModel>,
    b: Seq<WriteView<SingleRecord>>,
    es: Seq<(ObjectId, Option<Seq<u8>>)>,
    now: Timestamp,
    force_update: bool,
    ids: Seq<ElasticId>,
)
    requires
        forall|i: int, j: int| 0 <= i < j < es.len() ==> (#[trigger] es[i]).0 != (#[trigger] es[j]).0,
        ids.len() == es.len(),
    ensures
        forall|k: ObjectId|
            (forall|i: int| 0 <= i < es.len() ==> (#[trigger] es[i]).0 != k) ==> single_state_of(
                single_commit_all(data, b, es, now, force_update, ids).0,
                k,
            ) == single_state_of(data, k),
        forall|i: int|
            0 <= i < es.len() ==> single_state_of(single_commit_all(data, b, es, now, force_update, ids).0, (#[trigger] es[i]).0)
                == single_commit_state(es[i].0, single_state_of(data, es[i].0), es[i].1, now, force_update, ids[i]),
    decreases es.len(),
{
    if es.len() > 0 {
        let init = es.drop_last();
        let ids_init = ids.drop_last();
        assert forall|i: int, j: int| 0 <= i < j < init.len() implies (#[trigger] init[i]).0 != (#[trigger] init[j]).0 by {
            assert(init[i] == es[i] && init[j] == es[j]);
        }
        lemma_single_commit_all_frame(data, b, init, now, force_update, ids_init);
        let (d, b1) = single_commit_all(data, b, init, now, force_update, ids_init);
        let (oid, u) = es.last();
        let last = es.len() - 1;
        assert(es[last] == es.last());
        assert(ids[last] == ids.last());
        assert forall|i: int| 0 <= i < init.len() implies (#[trigger] init[i]).0 != oid by {
            assert(init[i] == es[i]);
        }
        assert(single_state_of(d, oid) == single_state_of(data, oid));
        let r = single_commit_all(data, b, es, now, force_update, ids).0;
        assert forall|k: ObjectId|
            (forall|i: int| 0 <= i < es.len() ==> (#[trigger] es[i]).0 != k) implies single_state_of(r, k)
            == single_state_of(data, k) by {
            assert(es[last].0 != k);
            assert forall|i: int| 0 <= i < init.len() implies (#[trigger] init[i]).0 != k by {
                assert(init[i] == es[i]);
            }
        }
        assert forall|i: int| 0 <= i < es.len() implies single_state_of(r, (#[trigger] es[i]).0) == single_commit_state(
            es[i].0,
            single_state_of(data, es[i].0),
            es[i].1,
            now,
            force_update,
            ids[i],
        ) by {
            if i < last {
                assert(init[i] == es[i] && ids_init[i] == ids[i]);
                assert(es[i].0 != oid);
            }
        }
    }
}

/// The id drawn for each commit is not the id of the object's live record.
pub open spec fn single_fresh_ids(
    data: Map<ObjectId, SingleDocModel>,
    es: Seq<(ObjectId, Option<Seq<u8>>)>,
    ids: Seq<ElasticId>,
) -> bool {
    &&& ids.len() == es.len()
    &&& forall|i: int|
        0 <= i < es.len() ==> (data.contains_key((#[trigger] es[i]).0) ==> ids[i] != data[es[i].0].elastic_id)
}

/// The in-memory state of a single-timeline table: the live record of each object.
pub struct SingleVersionedData {
    objects: ObjectMap<SingleVersionedDoc>,
}

impl View for SingleVersionedData {
    type V = Map<ObjectId, SingleDocModel>;

    closed spec fn view(&self) -> Map<ObjectId, SingleDocModel> {
        self.objects@.map_values(|d: SingleVersionedDoc| d@)
    }
}

impl SingleVersionedData {
    pub closed spec fn wf(&self) -> bool {
        self.objects.wf()
    }

    /// Every stored document's version leaves room for one more.
    pub closed spec fn bounded(&self) -> bool {
        forall|k: ObjectId| #[trigger] self.objects@.contains_key(k) ==> self.objects@[k].version < u64::MAX
    }

    pub fn new() -> (r: Self)
        ensures
            r.wf(),
            r.bounded(),
            r@ == Map::<ObjectId, SingleDocModel>::empty(),
    {
        let r = SingleVersionedData { objects: ObjectMap::new() };
        assert(r@ =~= Map::<ObjectId, SingleDocModel>::empty());
        r
    }

    /// Builds the state from the live records, as the store returns them.
    pub fn load(docs: Vec<Write<SingleVersionedValue>>) -> (r: Self)
        ensures
            r.wf(),
            r@ == single_load(single_writes_view(docs@)),
    {
        let ghost all = single_writes_view(docs@);
        let mut data = SingleVersionedData::new();
        let mut rest = docs;
        let ghost orig = rest@;
        let n = rest.len();
        let mut i: usize = 0;
        assert(all.take(0) =~= Seq::<WriteView<SingleRecord>>::empty());
        while i < n
            invariant
                n == all.len(),
                orig.len() == n,
                i <= n,
                rest@ == orig.subrange(i as int, n as int),
                all == single_writes_view(docs@),
                orig == docs@,
                data.wf(),
                data@ == single_load(all.take(i as int)),
            decreases n - i,
        {
            assert(rest@[0] == orig[i as int]);
            let w = rest.remove(0);
            proof {
                assert(all.take(i + 1).drop_last() =~= all.take(i as int));
                assert(rest@ =~= orig.subrange(i + 1, n as int));
            }
            let (elastic_id, version, doc) = w;
            let Identified { object_id, value } = doc;
            data.objects.insert(object_id, ElasticDoc { elastic_id, version, value });
            assert(data@ =~= single_load(all.take(i + 1)));
            i = i + 1;
        }
        assert(all.take(n as int) =~= all);
        data
    }

    /// The live record of an object.
    pub fn get(&self, object_id: &ObjectId) -> (r: Option<&SingleVersionedValue>)
        requires
            self.wf(),
        ensures
            match r {
                Some(v) => self@.contains_key(*object_id) && v@ == self@[*object_id].value,
                None => !self@.contains_key(*object_id),
            },
    {
        match self.objects.get(object_id) {
            Some(doc) => Some(&doc.value),
            None => None,
        }
    }

    /// The ids of the objects held, each once.
    pub fn object_ids(&self) -> (r: Vec<ObjectId>)
        requires
            self.wf(),
        ensures
            forall|i: int, j: int| 0 <= i < j < r@.len() ==> r@[i] != r@[j],
            forall|k: ObjectId| self@.contains_key(k) <==> r@.contains(k),
    {
        proof {
            self.objects.lemma_keys();
        }
        let r = self.objects.keys();
        assert forall|k: ObjectId| self@.contains_key(k) <==> r@.contains(k) by {
            if self@.contains_key(k) {
                let i = choose|i: int| 0 <= i < self.objects.spec_len() && self.objects.key_at(i) == k;
                assert(r@[i] == k);
            }
            if r@.contains(k) {
                let i = choose|i: int| 0 <= i < r@.len() && r@[i] == k;
                assert(self.objects@.contains_key(self.objects.key_at(i)));
            }
        }
        r
    }

    /// The state held for an object.
    pub fn get_state(&self, object_id: &ObjectId) -> (r: Option<&SingleVersionedDoc>)
        requires
            self.wf(),
        ensures
            match r {
                Some(o) => self@.contains_key(*object_id) && o@ == self@[*object_id],
                None => !self@.contains_key(*object_id),
            },
    {
        self.objects.get(object_id)
    }

    /// Whether every stored document's version leaves room for one more.
    pub fn check_bounded(&self) -> (r: bool)
        requires
            self.wf(),
        ensures
            r == self.bounded(),
    {
        proof {
            self.objects.lemma_keys();
        }
        let mut i: usize = 0;
        while i < self.objects.len()
            invariant
                self.wf(),
                i <= self.objects.spec_len(),
                forall|j: int| 0 <= j < i ==> (#[trigger] self.objects@[self.objects.key_at(j)]).version < u64::MAX,
            decreases self.objects.spec_len() - i,
        {
            if self.objects.value(i).version == u64::MAX {
                proof {
                    self.objects.lemma_keys();
                    assert(self.objects@.contains_key(self.objects.key_at(i as int)));
                }
                return false;
            }
            i = i + 1;
        }
        assert forall|k: ObjectId| #[trigger] self.objects@.contains_key(k) implies self.objects@[k].version < u64::MAX by {
            let j = choose|j: int| 0 <= j < self.objects.spec_len() && self.objects.key_at(j) == k;
            assert((self.objects@[self.objects.key_at(j)]).version < u64::MAX);
        }
        true
    }
}

/// The view of an optional pending payload.
pub open spec fn opt_payload(o: Option<Vec<u8>>) -> Option<Seq<u8>> {
    match o {
        Some(v) => Some(v@),
        None => None,
    }
}

/// A transaction on a single-timeline table: the stored state, and for each
/// object edited its pending payload (`None` to remove it).
pub struct SingleVersionedTransaction {
    data: SingleVersionedData,
    updates: ObjectMap<Option<Vec<u8>>>,
}

impl SingleVersionedTransaction {
    pub closed spec fn wf(&self) -> bool {
        self.data.wf() && self.updates.wf() && self.data.bounded()
    }

    /// The stored state the transaction works on.
    pub closed spec fn data_view(&self) -> Map<ObjectId, SingleDocModel> {
        self.data@
    }

    /// The pending edit of each object edited.
    pub closed spec fn pending(&self) -> Map<ObjectId, Option<Seq<u8>>> {
        self.updates@.map_values(|u: Option<Vec<u8>>| opt_payload(u))
    }

    /// The pending edits in the order the commit applies them.
    pub closed spec fn pending_entries(&self) -> Seq<(ObjectId, Option<Seq<u8>>)> {
        self.updates.entry_seq().map_values(|e: (ObjectId, Option<Vec<u8>>)| (e.0, opt_payload(e.1)))
    }

    /// The pending edits in commit order are those of `pending()`, each
    /// object once.
    pub proof fn lemma_pending_entries(&self)
        requires
            self.wf(),
        ensures
            pending_matches(self.pending(), self.pending_entries()),
    {
        self.updates.lemma_keys();
        self.updates.lemma_entry_seq();
        let es = self.pending_entries();
        let p = self.pending();
        assert forall|i: int, j: int| 0 <= i < j < es.len() implies (#[trigger] es[i]).0 != (#[trigger] es[j]).0 by {
            assert(es[i].0 == self.updates.key_at(i));
            assert(es[j].0 == self.updates.key_at(j));
        }
        assert forall|i: int| 0 <= i < es.len() implies p.contains_key((#[trigger] es[i]).0) && es[i].1 == p[es[i].0] by {
            assert(es[i].0 == self.updates.key_at(i));
        }
        assert forall|k: ObjectId| #[trigger] p.contains_key(k) implies exists|i: int| 0 <= i < es.len() && es[i].0 == k by {
            let i = choose|i: int| 0 <= i < self.updates.spec_len() && self.updates.key_at(i) == k;
            assert(es[i].0 == k);
        }
        assert(p.dom() =~= self.updates@.dom());
    }

    pub fn new(data: SingleVersionedData) -> (r: Self)
        requires
            data.wf(),
            data.bounded(),
        ensures
            r.wf(),
            r.data_view() == data@,
            r.pending() == Map::<ObjectId, Option<Seq<u8>>>::empty(),
            r.pending_entries() == Seq::<(ObjectId, Option<Seq<u8>>)>::empty(),
    {
        let r = SingleVersionedTransaction { data, updates: ObjectMap::new() };
        assert(r.pending_entries() =~= Seq::<(ObjectId, Option<Seq<u8>>)>::empty());
        assert(r.pending() =~= Map::<ObjectId, Option<Seq<u8>>>::empty());
        r
    }

    fn set(&mut self, object_id: ObjectId, update: Option<Vec<u8>>)
        requires
            old(self).wf(),
        ensures
            final(self).wf(),
            final(self).data_view() == old(self).data_view(),
            final(self).pending() == old(self).pending().insert(object_id, opt_payload(update)),
    {
        let ghost u = opt_payload(update);
        self.updates.insert(object_id, update);
        assert(self.pending() =~= old(self).pending().insert(object_id, u));
    }

    /// Records the creation of an object that is neither stored nor edited
    /// in this transaction; false, with nothing recorded, otherwise.
    pub fn create(&mut self, object_id: &ObjectId, value: Vec<u8>) -> (r: bool)
        requires
            old(self).wf(),
        ensures
            final(self).wf(),
            r == (!old(self).pending().contains_key(*object_id) && !old(self).data_view().contains_key(*object_id)),
            final(self).data_view() == old(self).data_view(),
            final(self).pending() == if r {
                old(self).pending().insert(*object_id, Some(value@))
            } else {
                old(self).pending()
            },
    {
        if !self.updates.contains_key(object_id) && !self.data.objects.contains_key(object_id) {
            assert(self.pending().contains_key(*object_id) == self.updates@.contains_key(*object_id));
            self.set(*object_id, Some(value));
            true
        } else {
            false
        }
    }

    /// Records an update of an object that is stored or edited in this
    /// transaction; false, with nothing recorded, otherwise.
    pub fn update(&mut self, object_id: &ObjectId, value: Vec<u8>) -> (r: bool)
        requires
            old(self).wf(),
        ensures
            final(self).wf(),
            r == (old(self).pending().contains_key(*object_id) || old(self).data_view().contains_key(*object_id)),
            final(self).data_view() == old(self).data_view(),
            final(self).pending() == if r {
                old(self).pending().insert(*object_id, Some(value@))
            } else {
                old(self).pending()
            },
    {
        if self.updates.contains_key(object_id) || self.data.objects.contains_key(object_id) {
            self.set(*object_id, Some(value));
            true
        } else {
            false
        }
    }

    /// Records that the object is to hold `value`, whatever its state.
    pub fn insert(&mut self, object_id: &ObjectId, value: Vec<u8>)
        requires
            old(self).wf(),
        ensures
            final(self).wf(),
            final(self).data_view() == old(self).data_view(),
            final(self).pending() == old(self).pending().insert(*object_id, Some(value@)),
    {
        self.set(*object_id, Some(value));
    }

    /// Records the removal of an object that is live: stored and not edited,
    /// or given a payload in this transaction; false, with nothing recorded,
    /// otherwise.
    pub fn remove(&mut self, object_id: &ObjectId) -> (r: bool)
        requires
            old(self).wf(),
        ensures
            final(self).wf(),
            r == (if old(self).pending().contains_key(*object_id) {
                old(self).pending()[*object_id].is_some()
            } else {
                old(self).data_view().contains_key(*object_id)
            }),
            final(self).data_view() == old(self).data_view(),
            final(self).pending() == if r {
                old(self).pending().insert(*object_id, None)
            } else {
                old(self).pending()
            },
    {
        let live = match self.updates.get(object_id) {
            Some(u) => u.is_some(),
            None => self.data.objects.contains_key(object_id),
        };
        if live {
            self.set(*object_id, None);
            true
        } else {
            false
        }
    }

    /// Applies the edits of a bulk update in order; stops at the first one
    /// refused, and reports it.
    pub fn apply_operations(&mut self, table_id: &String, ops: Vec<(ObjectId, Operation<Vec<u8>>)>) -> (r: Result<(), Error>)
        requires
            old(self).wf(),
        ensures
            final(self).wf(),
            final(self).data_view() == old(self).data_view(),
            match single_ops(old(self).data_view(), old(self).pending(), ops_view(ops@)) {
                Ok(p) => r is Ok && final(self).pending() == p,
                Err((oid, OpFailure::AlreadyExists)) => r == Err::<(), Error>(Error::ObjectIdAlreadyExists(*table_id, oid)),
                Err((oid, OpFailure::DoesNotExist)) => r == Err::<(), Error>(Error::ObjectDoesNotExist(*table_id, oid)),
            },
    {
        let ghost all = ops_view(ops@);
        let ghost d = self.data_view();
        let ghost p0 = self.pending();
        let mut rest = ops;
        let n = rest.len();
        let mut i: usize = 0;
        assert(all.take(0) =~= Seq::<(ObjectId, Operation<Seq<u8>>)>::empty());
        while i < n
            invariant
                n == all.len(),
                i <= n,
                all == ops_view(ops@),
                rest@ == ops@.subrange(i as int, n as int),
                self.wf(),
                self.data_view() == d,
                d == old(self).data_view(),
                p0 == old(self).pending(),
                single_ops(d, p0, all.take(i as int)) == Ok::<Map<ObjectId, Option<Seq<u8>>>, (ObjectId, OpFailure)>(self.pending()),
            decreases n - i,
        {
            assert(rest@[0] == ops@[i as int]);
            let (oid, op) = rest.remove(0);
            assert(rest@ =~= ops@.subrange(i + 1, n as int));
            assert(all.take(i + 1).drop_last() =~= all.take(i as int));
            assert(all.take(i + 1).last() == (oid, op@));
            let is_create = match op {
                Operation::Create(_) => true,
                _ => false,
            };
            let ok = match op {
                Operation::Create(v) => self.create(&oid, v),
                Operation::Update(v) => self.update(&oid, v),
                Operation::CreateOrUpdate(v) => {
                    self.insert(&oid, v);
                    true
                },
                Operation::Remove => self.remove(&oid),
            };
            if !ok {
                proof {
                    lemma_ops_err(d, p0, all, i + 1);
                }
                return if is_create {
                    Err(Error::ObjectIdAlreadyExists(table_id.clone(), oid))
                } else {
                    Err(Error::ObjectDoesNotExist(table_id.clone(), oid))
                };
            }
            i = i + 1;
        }
        assert(all.take(n as int) =~= all);
        Ok(())
    }

    /// Drops the pending edits and hands back the stored state unchanged.
    pub fn abort(self) -> (r: SingleVersionedData)
        requires
            self.wf(),
        ensures
            r.wf(),
            r.bounded(),
            r@ == self.data_view(),
    {
        self.data
    }

    /// Commits the pending edits at `now`: hands back the new stored state
    /// and the writes that take the store to it. Each commit of an object
    /// draws a fresh document id for what it creates.
    pub fn commit(self, now: Timestamp, force_update: bool) -> (r: (SingleVersionedData, UpdateGuard<SingleVersionedValue>))
        requires
            self.wf(),
        ensures
            r.0.wf(),
            r.1.wf(),
            pending_matches(self.pending(), self.pending_entries()),
            exists|ids: Seq<ElasticId>|
                single_fresh_ids(self.data_view(), self.pending_entries(), ids) && (r.0@, r.1@) == single_commit_all(
                    self.data_view(),
                    Seq::empty(),
                    self.pending_entries(),
                    now,
                    force_update,
                    ids,
                ) && forall|i: int|
                    0 <= i < self.pending_entries().len() ==> single_state_of(r.0@, (#[trigger] self.pending_entries()[i]).0)
                        == single_commit_state(
                        self.pending_entries()[i].0,
                        single_state_of(self.data_view(), self.pending_entries()[i].0),
                        self.pending_entries()[i].1,
                        now,
                        force_update,
                        ids[i],
                    ),
            forall|k: ObjectId|
                !self.pending().contains_key(k) ==> single_state_of(r.0@, k) == single_state_of(self.data_view(), k),
    {
        proof {
            self.lemma_pending_entries();
        }
        let ghost p0 = self.pending();
        let ghost es = self.pending_entries();
        let ghost orig = self.data.objects@;
        let ghost orig_view = self.data_view();
        proof {
            self.updates.lemma_keys();
            self.updates.lemma_entry_seq();
        }
        let SingleVersionedTransaction { data, updates } = self;
        let mut data = data;
        let mut entries = updates.into_entries();
        let ghost all = entries@;
        let n = entries.len();
        let mut batch: UpdateGuard<SingleVersionedValue> = UpdateGuard::new();
        let ghost mut ids: Seq<ElasticId> = Seq::empty();
        assert(es.take(0) =~= Seq::<(ObjectId, Option<Seq<u8>>)>::empty());
        let mut i: usize = 0;
        while i < n
            invariant
                n == all.len(),
                i <= n,
                entries@ == all.subrange(i as int, n as int),
                es.len() == n,
                forall|j: int| 0 <= j < n ==> #[trigger] es[j] == (all[j].0, opt_payload(all[j].1)),
                forall|a: int, b: int| 0 <= a < b < n ==> #[trigger] all[a].0 != #[trigger] all[b].0,
                data.wf(),
                batch.wf(),
                ids.len() == i,
                (data@, batch@) == single_commit_all(orig_view, Seq::empty(), es.take(i as int), now, force_update, ids),
                forall|j: int|
                    i <= j < n ==> (data.objects@.contains_key(#[trigger] all[j].0) == orig.contains_key(all[j].0))
                        && (orig.contains_key(all[j].0) ==> data.objects@[all[j].0] == orig[all[j].0]),
                forall|k: ObjectId| #[trigger] orig.contains_key(k) ==> orig[k].version < u64::MAX,
                orig_view == orig.map_values(|d: SingleVersionedDoc| d@),
                forall|j: int|
                    0 <= j < i ==> (orig_view.contains_key((#[trigger] es[j]).0) ==> ids[j] != orig_view[es[j].0].elastic_id),
            decreases n - i,
        {
            let ghost d0 = data@;
            let ghost ids0 = ids;
            assert(entries@[0] == all[i as int]);
            let (oid, u) = entries.remove(0);
            assert(entries@ =~= all.subrange(i + 1, n as int));
            let obj = data.objects.remove(&oid);
            let held = match &obj {
                Some(d) => Some(d.elastic_id),
                None => None,
            };
            let fa = fresh_id(ElasticId::new(), held, None, None);
            let ghost prior = if d0.contains_key(oid) { Some(d0[oid]) } else { None };
            assert(es[i as int].0 == oid);
            assert(opt_doc_view(obj) == prior);
            let r = single_commit_object(&mut batch, oid, obj, u, now, force_update, fa);
            let ghost rv = opt_doc_view(r);
            match r {
                Some(x) => {
                    data.objects.insert(oid, x);
                },
                None => {},
            }
            proof {
                ids = ids.push(fa);
                assert(es.take(i + 1).drop_last() =~= es.take(i as int));
                assert(ids.drop_last() =~= ids0);
                match rv {
                    Some(x) => {
                        assert(data@ =~= d0.insert(oid, x));
                    },
                    None => {
                        assert(data@ =~= d0.remove(oid));
                    },
                }
                assert forall|j: int| i + 1 <= j < n implies (data.objects@.contains_key(#[trigger] all[j].0)
                    == orig.contains_key(all[j].0)) && (orig.contains_key(all[j].0) ==> data.objects@[all[j].0]
                    == orig[all[j].0]) by {
                    assert(all[i as int].0 != all[j].0);
                }
            }
            i = i + 1;
        }
        assert(es.take(n as int) =~= es);
        assert(single_fresh_ids(orig_view, es, ids));
        proof {
            lemma_single_commit_all_frame(orig_view, Seq::empty(), es, now, force_update, ids);
            assert forall|k: ObjectId| !p0.contains_key(k) implies single_state_of(data@, k) == single_state_of(orig_view, k) by {
                assert forall|i: int| 0 <= i < es.len() implies (#[trigger] es[i]).0 != k by {}
            }
        }
        assert(ids.len() == es.len() && (data@, batch@) == single_commit_all(orig_view, Seq::empty(), es, now, force_update, ids));
        (data, batch)
    }
}

} // verus!
