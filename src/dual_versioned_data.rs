//! Data of dual-timeline tables: the per-object state machine, the update
//! tokens that a transaction accumulates, and the transaction itself.
use vstd::prelude::*;

use crate::ids::{fresh_id, ElasticId, ObjectId, Timestamp};
use crate::object_map::ObjectMap;
use crate::table_data::{ElasticDoc, Identified};
use crate::dual_commit::{
    commit_state, lemma_state_ignores_batch, state_ids, commit_object, commit_spec, id_unused, lemma_commit_keeps_state_consistent, obj_bounded, obj_consistent,
    opt_consistent, opt_view,
};
use crate::error::Error;
use crate::updates::{UpdateGuard, Write, WriteView};
use crate::versioned::{DualRecord, DualVersionedValue};

verus! {

/// A stored dual-timeline record under its document id and version.
pub type DualVersionedDoc = ElasticDoc<DualVersionedValue>;

/// What a stored dual-timeline document holds.
pub type DocModel = ElasticDoc<DualRecord>;

/// Which timeline a read looks at.
#[derive(Clone, Copy, Debug, PartialEq, Eq, Structural)]
pub enum Timeline {
    Current,
    Active,
}

/// Current / active state of one object.
#[derive(Debug)]
pub enum DualVersionedObj<T> {
    /// Current but not active.
    Created { current: T, committed: bool },
    /// Active but not current.
    Removed { active: T },
    /// Active and current, on two different records.
    Updated { active: T, current: T, committed: bool },
    /// Active and current, on the same record.
    Activated { active: T },
}

impl<T: View> View for DualVersionedObj<T> {
    type V = DualVersionedObj<T::V>;

    open spec fn view(&self) -> DualVersionedObj<T::V> {
        match self {
            DualVersionedObj::Created { current, committed } => DualVersionedObj::Created {
                current: current@,
                committed: *committed,
            },
            DualVersionedObj::Removed { active } => DualVersionedObj::Removed { active: active@ },
            DualVersionedObj::Updated { active, current, committed } => DualVersionedObj::Updated {
                active: active@,
                current: current@,
                committed: *committed,
            },
            DualVersionedObj::Activated { active } => DualVersionedObj::Activated { active: active@ },
        }
    }
}

/// The record that is live on the current timeline, if any.
pub open spec fn obj_current<T>(o: DualVersionedObj<T>) -> Option<T> {
    match o {
        DualVersionedObj::Created { current, .. } => Some(current),
        DualVersionedObj::Updated { current, .. } => Some(current),
        DualVersionedObj::Activated { active } => Some(active),
        DualVersionedObj::Removed { .. } => None,
    }
}

/// The record that is live on the active timeline, if any.
pub open spec fn obj_active<T>(o: DualVersionedObj<T>) -> Option<T> {
    match o {
        DualVersionedObj::Created { .. } => None,
        DualVersionedObj::Updated { active, .. } => Some(active),
        DualVersionedObj::Activated { active } => Some(active),
        DualVersionedObj::Removed { active } => Some(active),
    }
}

/// The pairing of two partial states into one: a current-only state and an
/// active-only state make an `Updated` state; nothing else pairs.
pub open spec fn obj_combine<T>(a: DualVersionedObj<T>, b: DualVersionedObj<T>) -> Option<DualVersionedObj<T>> {
    match (a, b) {
        (DualVersionedObj::Created { current, committed }, DualVersionedObj::Removed { active }) =>
            Some(DualVersionedObj::Updated { active, current, committed }),
        (DualVersionedObj::Removed { active }, DualVersionedObj::Created { current, committed }) =>
            Some(DualVersionedObj::Updated { active, current, committed }),
        _ => None,
    }
}

/// The state a single stored record stands for, by which of its timelines are
/// open; a record open on neither stands for no state.
pub open spec fn doc_state(d: DocModel) -> Option<DualVersionedObj<DocModel>> {
    let is_current = d.value.version.current.to.is_none();
    let is_active = match d.value.version.active {
        Some(a) => a.to.is_none(),
        None => false,
    };
    if is_current && is_active {
        Some(DualVersionedObj::Activated { active: d })
    } else if is_active {
        Some(DualVersionedObj::Removed { active: d })
    } else if is_current {
        Some(DualVersionedObj::Created { current: d, committed: d.value.version.committed.is_some() })
    } else {
        None
    }
}

impl<T> DualVersionedObj<T> {
    pub fn created(current: T, committed: bool) -> (r: Self)
        ensures
            r == (DualVersionedObj::Created { current, committed }),
    {
        DualVersionedObj::Created { current, committed }
    }

    pub fn removed(active: T) -> (r: Self)
        ensures
            r == (DualVersionedObj::Removed { active }),
    {
        DualVersionedObj::Removed { active }
    }

    pub fn activated(active: T) -> (r: Self)
        ensures
            r == (DualVersionedObj::Activated { active }),
    {
        DualVersionedObj::Activated { active }
    }

    pub fn updated(active: T, current: T, committed: bool) -> (r: Self)
        ensures
            r == (DualVersionedObj::Updated { active, current, committed }),
    {
        DualVersionedObj::Updated { active, current, committed }
    }

    /// Pairs two partial states; hands back the first one where they do not pair.
    pub fn combine(self, other: Self) -> (r: Result<Self, Self>)
        ensures
            match obj_combine(self, other) {
                Some(o) => r == Ok::<Self, Self>(o),
                None => r == Err::<Self, Self>(self),
            },
    {
        match (self, other) {
            (DualVersionedObj::Created { current, committed }, DualVersionedObj::Removed { active }) =>
                Ok(DualVersionedObj::Updated { active, current, committed }),
            (DualVersionedObj::Removed { active }, DualVersionedObj::Created { current, committed }) =>
                Ok(DualVersionedObj::Updated { active, current, committed }),
            (this, _) => Err(this),
        }
    }

    pub fn get_current(&self) -> (r: Option<&T>)
        ensures
            match obj_current(*self) {
                Some(c) => r == Some(&c),
                None => r.is_none(),
            },
    {
        match self {
            DualVersionedObj::Created { current, .. } => Some(current),
            DualVersionedObj::Updated { current, .. } => Some(current),
            DualVersionedObj::Activated { active } => Some(active),
            DualVersionedObj::Removed { .. } => None,
        }
    }

    pub fn get_active(&self) -> (r: Option<&T>)
        ensures
            match obj_active(*self) {
                Some(a) => r == Some(&a),
                None => r.is_none(),
            },
    {
        match self {
            DualVersionedObj::Created { .. } => None,
            DualVersionedObj::Updated { active, .. } => Some(active),
            DualVersionedObj::Activated { active } => Some(active),
            DualVersionedObj::Removed { active } => Some(active),
        }
    }

    pub fn get(&self, timeline: Timeline) -> (r: Option<&T>)
        ensures
            match (if timeline == Timeline::Current { obj_current(*self) } else { obj_active(*self) }) {
                Some(a) => r == Some(&a),
                None => r.is_none(),
            },
    {
        match timeline {
            Timeline::Current => self.get_current(),
            Timeline::Active => self.get_active(),
        }
    }
}

/// The edits of one object within one transaction, as one token: the
/// sequence of primitive edits (insert, remove, activate) reduced to what
/// decides the writes at commit.
#[derive(Debug)]
pub enum DualVersionedUpdate<V> {
    Insert(V, bool),
    Remove,
    Activate,
    ActivateInsert(V, bool),
    ActivateRemove,
    InsertActivate(V),
    InsertActivateInsert(V, V, bool),
    InsertActivateRemove(V),
    RemoveActivate,
    RemoveActivateInsert(V, bool),
}

impl<V: View> View for DualVersionedUpdate<V> {
    type V = DualVersionedUpdate<V::V>;

    open spec fn view(&self) -> DualVersionedUpdate<V::V> {
        match self {
            DualVersionedUpdate::Insert(v, c) => DualVersionedUpdate::Insert(v@, *c),
            DualVersionedUpdate::Remove => DualVersionedUpdate::Remove,
            DualVersionedUpdate::Activate => DualVersionedUpdate::Activate,
            DualVersionedUpdate::ActivateInsert(v, c) => DualVersionedUpdate::ActivateInsert(v@, *c),
            DualVersionedUpdate::ActivateRemove => DualVersionedUpdate::ActivateRemove,
            DualVersionedUpdate::InsertActivate(v) => DualVersionedUpdate::InsertActivate(v@),
            DualVersionedUpdate::InsertActivateInsert(b, a, c) => DualVersionedUpdate::InsertActivateInsert(b@, a@, *c),
            DualVersionedUpdate::InsertActivateRemove(v) => DualVersionedUpdate::InsertActivateRemove(v@),
            DualVersionedUpdate::RemoveActivate => DualVersionedUpdate::RemoveActivate,
            DualVersionedUpdate::RemoveActivateInsert(v, c) => DualVersionedUpdate::RemoveActivateInsert(v@, *c),
        }
    }
}

/// The token after a further insert of `v` (committed or not).
pub open spec fn token_insert<V>(t: DualVersionedUpdate<V>, v: V, c: bool) -> DualVersionedUpdate<V> {
    match t {
        DualVersionedUpdate::Insert(..) | DualVersionedUpdate::Remove => DualVersionedUpdate::Insert(v, c),
        DualVersionedUpdate::Activate | DualVersionedUpdate::ActivateInsert(..)
        | DualVersionedUpdate::ActivateRemove => DualVersionedUpdate::ActivateInsert(v, c),
        DualVersionedUpdate::InsertActivate(b) => DualVersionedUpdate::InsertActivateInsert(b, v, c),
        DualVersionedUpdate::InsertActivateInsert(b, _, _) => DualVersionedUpdate::InsertActivateInsert(b, v, c),
        DualVersionedUpdate::InsertActivateRemove(b) => DualVersionedUpdate::InsertActivateInsert(b, v, c),
        DualVersionedUpdate::RemoveActivate | DualVersionedUpdate::RemoveActivateInsert(..) =>
            DualVersionedUpdate::RemoveActivateInsert(v, c),
    }
}

/// The token after a further remove.
pub open spec fn token_remove<V>(t: DualVersionedUpdate<V>) -> DualVersionedUpdate<V> {
    match t {
        DualVersionedUpdate::Insert(..) | DualVersionedUpdate::Remove => DualVersionedUpdate::Remove,
        DualVersionedUpdate::Activate | DualVersionedUpdate::ActivateInsert(..)
        | DualVersionedUpdate::ActivateRemove => DualVersionedUpdate::ActivateRemove,
        DualVersionedUpdate::InsertActivate(b) => DualVersionedUpdate::InsertActivateRemove(b),
        DualVersionedUpdate::InsertActivateInsert(b, _, _) => DualVersionedUpdate::InsertActivateRemove(b),
        DualVersionedUpdate::InsertActivateRemove(b) => DualVersionedUpdate::InsertActivateRemove(b),
        DualVersionedUpdate::RemoveActivate | DualVersionedUpdate::RemoveActivateInsert(..) =>
            DualVersionedUpdate::RemoveActivate,
    }
}

/// The token after a further activate: the pending current view goes onto
/// the active timeline.
pub open spec fn token_activate<V>(t: DualVersionedUpdate<V>) -> DualVersionedUpdate<V> {
    match t {
        DualVersionedUpdate::Activate => DualVersionedUpdate::Activate,
        DualVersionedUpdate::InsertActivate(v) => DualVersionedUpdate::InsertActivate(v),
        DualVersionedUpdate::RemoveActivate => DualVersionedUpdate::RemoveActivate,
        DualVersionedUpdate::Insert(v, _) => DualVersionedUpdate::InsertActivate(v),
        DualVersionedUpdate::ActivateInsert(v, _) => DualVersionedUpdate::InsertActivate(v),
        DualVersionedUpdate::InsertActivateInsert(_, v, _) => DualVersionedUpdate::InsertActivate(v),
        DualVersionedUpdate::RemoveActivateInsert(v, _) => DualVersionedUpdate::InsertActivate(v),
        DualVersionedUpdate::Remove | DualVersionedUpdate::ActivateRemove
        | DualVersionedUpdate::InsertActivateRemove(_) => DualVersionedUpdate::RemoveActivate,
    }
}

/// The payload visible on the current timeline once the token applies to a
/// state whose current payload is `base`.
pub open spec fn token_current<V>(t: DualVersionedUpdate<V>, base: Option<V>) -> Option<V> {
    match t {
        DualVersionedUpdate::Insert(v, _) => Some(v),
        DualVersionedUpdate::ActivateInsert(v, _) => Some(v),
        DualVersionedUpdate::InsertActivate(v) => Some(v),
        DualVersionedUpdate::InsertActivateInsert(_, v, _) => Some(v),
        DualVersionedUpdate::RemoveActivateInsert(v, _) => Some(v),
        DualVersionedUpdate::Activate => base,
        _ => None,
    }
}

/// The payload visible on the active timeline once the token applies to a
/// state whose current and active payloads are `base_current` and `base_active`.
pub open spec fn token_active<V>(t: DualVersionedUpdate<V>, base_current: Option<V>, base_active: Option<V>) -> Option<V> {
    match t {
        DualVersionedUpdate::Insert(..) | DualVersionedUpdate::Remove => base_active,
        DualVersionedUpdate::Activate | DualVersionedUpdate::ActivateInsert(..)
        | DualVersionedUpdate::ActivateRemove => base_current,
        DualVersionedUpdate::InsertActivate(v) => Some(v),
        DualVersionedUpdate::InsertActivateInsert(v, _, _) => Some(v),
        DualVersionedUpdate::InsertActivateRemove(v) => Some(v),
        DualVersionedUpdate::RemoveActivate | DualVersionedUpdate::RemoveActivateInsert(..) => None,
    }
}

/// The value an optional reference points to.
pub open spec fn opt_deref<V>(o: Option<&V>) -> Option<V> {
    match o {
        Some(x) => Some(*x),
        None => None,
    }
}

impl<V> DualVersionedUpdate<V> {
    pub fn inserted(self, value: V, commit: bool) -> (r: Self)
        ensures
            r == token_insert(self, value, commit),
    {
        match self {
            DualVersionedUpdate::Insert(..) | DualVersionedUpdate::Remove => DualVersionedUpdate::Insert(value, commit),
            DualVersionedUpdate::Activate | DualVersionedUpdate::ActivateInsert(..)
            | DualVersionedUpdate::ActivateRemove => DualVersionedUpdate::ActivateInsert(value, commit),
            DualVersionedUpdate::InsertActivate(b) => DualVersionedUpdate::InsertActivateInsert(b, value, commit),
            DualVersionedUpdate::InsertActivateInsert(b, _, _) => DualVersionedUpdate::InsertActivateInsert(b, value, commit),
            DualVersionedUpdate::InsertActivateRemove(b) => DualVersionedUpdate::InsertActivateInsert(b, value, commit),
            DualVersionedUpdate::RemoveActivate | DualVersionedUpdate::RemoveActivateInsert(..) =>
                DualVersionedUpdate::RemoveActivateInsert(value, commit),
        }
    }

    pub fn removed(self) -> (r: Self)
        ensures
            r == token_remove(self),
    {
        match self {
            DualVersionedUpdate::Insert(..) | DualVersionedUpdate::Remove => DualVersionedUpdate::Remove,
            DualVersionedUpdate::Activate | DualVersionedUpdate::ActivateInsert(..)
            | DualVersionedUpdate::ActivateRemove => DualVersionedUpdate::ActivateRemove,
            DualVersionedUpdate::InsertActivate(b) => DualVersionedUpdate::InsertActivateRemove(b),
            DualVersionedUpdate::InsertActivateInsert(b, _, _) => DualVersionedUpdate::InsertActivateRemove(b),
            DualVersionedUpdate::InsertActivateRemove(b) => DualVersionedUpdate::InsertActivateRemove(b),
            DualVersionedUpdate::RemoveActivate | DualVersionedUpdate::RemoveActivateInsert(..) =>
                DualVersionedUpdate::RemoveActivate,
        }
    }

    pub fn activated(self) -> (r: Self)
        ensures
            r == token_activate(self),
    {
        match self {
            DualVersionedUpdate::Activate => DualVersionedUpdate::Activate,
            DualVersionedUpdate::InsertActivate(v) => DualVersionedUpdate::InsertActivate(v),
            DualVersionedUpdate::RemoveActivate => DualVersionedUpdate::RemoveActivate,
            DualVersionedUpdate::Insert(v, _) => DualVersionedUpdate::InsertActivate(v),
            DualVersionedUpdate::ActivateInsert(v, _) => DualVersionedUpdate::InsertActivate(v),
            DualVersionedUpdate::InsertActivateInsert(_, v, _) => DualVersionedUpdate::InsertActivate(v),
            DualVersionedUpdate::RemoveActivateInsert(v, _) => DualVersionedUpdate::InsertActivate(v),
            DualVersionedUpdate::Remove | DualVersionedUpdate::ActivateRemove
            | DualVersionedUpdate::InsertActivateRemove(_) => DualVersionedUpdate::RemoveActivate,
        }
    }

    pub fn insert(&mut self, value: V, commit: bool)
        ensures
            *final(self) == token_insert(*old(self), value, commit),
    {
        let mut this = DualVersionedUpdate::Remove;
        std::mem::swap(self, &mut this);
        *self = this.inserted(value, commit);
    }

    pub fn remove(&mut self)
        ensures
            *final(self) == token_remove(*old(self)),
    {
        let mut this = DualVersionedUpdate::Remove;
        std::mem::swap(self, &mut this);
        *self = this.removed();
    }

    pub fn activate(&mut self)
        ensures
            *final(self) == token_activate(*old(self)),
    {
        let mut this = DualVersionedUpdate::Remove;
        std::mem::swap(self, &mut this);
        *self = this.activated();
    }

    /// The payload visible on the current timeline, `base` being the one of the stored state.
    pub fn get_current<'a>(&'a self, base: Option<&'a V>) -> (r: Option<&'a V>)
        ensures
            opt_deref(r) == token_current(*self, opt_deref(base)),
    {
        match self {
            DualVersionedUpdate::Insert(v, _) => Some(v),
            DualVersionedUpdate::ActivateInsert(v, _) => Some(v),
            DualVersionedUpdate::InsertActivate(v) => Some(v),
            DualVersionedUpdate::InsertActivateInsert(_, v, _) => Some(v),
            DualVersionedUpdate::RemoveActivateInsert(v, _) => Some(v),
            DualVersionedUpdate::Activate => base,
            _ => None,
        }
    }

    /// The payload visible on the active timeline, `base_current` and
    /// `base_active` being the ones of the stored state.
    pub fn get_active<'a>(&'a self, base_current: Option<&'a V>, base_active: Option<&'a V>) -> (r: Option<&'a V>)
        ensures
            opt_deref(r) == token_active(*self, opt_deref(base_current), opt_deref(base_active)),
    {
        match self {
            DualVersionedUpdate::Insert(..) | DualVersionedUpdate::Remove => base_active,
            DualVersionedUpdate::Activate | DualVersionedUpdate::ActivateInsert(..)
            | DualVersionedUpdate::ActivateRemove => base_current,
            DualVersionedUpdate::InsertActivate(v) => Some(v),
            DualVersionedUpdate::InsertActivateInsert(v, _, _) => Some(v),
            DualVersionedUpdate::InsertActivateRemove(v) => Some(v),
            DualVersionedUpdate::RemoveActivate | DualVersionedUpdate::RemoveActivateInsert(..) => None,
        }
    }
}

/// The per-object states that stored records fold into, in order; the id of
/// the first record that stands for no state, or that does not pair with the
/// state folded so far for its object, where there is one.
pub open spec fn load_fold(docs: Seq<WriteView<DualRecord>>) -> Result<Map<ObjectId, DualVersionedObj<DocModel>>, ElasticId>
    decreases docs.len(),
{
    if docs.len() == 0 {
        Ok(Map::empty())
    } else {
        match load_fold(docs.drop_last()) {
            Err(e) => Err(e),
            Ok(m) => {
                let (id, version, oid, rec) = docs.last();
                match doc_state(ElasticDoc { elastic_id: id, version, value: rec }) {
                    None => Err(id),
                    Some(o) => if m.contains_key(oid) {
                        match obj_combine(m[oid], o) {
                            Some(c) => Ok(m.insert(oid, c)),
                            None => Err(id),
                        }
                    } else {
                        Ok(m.insert(oid, o))
                    },
                }
            },
        }
    }
}

proof fn lemma_fold_err(s: Seq<WriteView<DualRecord>>, k: int)
    requires
        0 <= k <= s.len(),
        load_fold(s.take(k)).is_err(),
    ensures
        load_fold(s) == load_fold(s.take(k)),
    decreases s.len() - k,
{
    if k < s.len() {
        assert(s.take(k + 1).drop_last() =~= s.take(k));
        lemma_fold_err(s, k + 1);
    } else {
        assert(s.take(k) =~= s);
    }
}

proof fn lemma_combine_view(a: DualVersionedObj<DualVersionedDoc>, b: DualVersionedObj<DualVersionedDoc>)
    ensures
        match obj_combine(a, b) {
            Some(c) => obj_combine(a@, b@) == Some(c@),
            None => obj_combine(a@, b@).is_none(),
        },
{
}

/// The views of stored writes.
pub open spec fn writes_view(s: Seq<Write<DualVersionedValue>>) -> Seq<WriteView<DualRecord>> {
    s.map_values(|w: Write<DualVersionedValue>| write_view(w))
}

/// The view of a stored write.
pub open spec fn write_view(w: Write<DualVersionedValue>) -> WriteView<DualRecord> {
    (w.0, w.1, w.2.object_id, w.2.value@)
}

/// The in-memory state of a dual-timeline table: for each object, which of
/// its records are live on which timeline.
pub struct DualVersionedData {
    objects: ObjectMap<DualVersionedObj<DualVersionedDoc>>,
}

/// The record that is live on the current timeline for `k`, if any.
pub open spec fn data_current(m: Map<ObjectId, DualVersionedObj<DocModel>>, k: ObjectId) -> Option<DualRecord> {
    if m.contains_key(k) {
        match obj_current(m[k]) {
            Some(d) => Some(d.value),
            None => None,
        }
    } else {
        None
    }
}

/// The record that is live on the active timeline for `k`, if any.
pub open spec fn data_active(m: Map<ObjectId, DualVersionedObj<DocModel>>, k: ObjectId) -> Option<DualRecord> {
    if m.contains_key(k) {
        match obj_active(m[k]) {
            Some(d) => Some(d.value),
            None => None,
        }
    } else {
        None
    }
}

/// The payload of an optional record.
pub open spec fn payload_of(r: Option<DualRecord>) -> Option<Seq<u8>> {
    match r {
        Some(x) => Some(x.value),
        None => None,
    }
}

/// The view of an optional record reference.
pub open spec fn opt_record(r: Option<&DualVersionedValue>) -> Option<DualRecord> {
    match r {
        Some(x) => Some(x@),
        None => None,
    }
}

/// The view of an optional payload reference.
pub open spec fn opt_bytes(r: Option<&Vec<u8>>) -> Option<Seq<u8>> {
    match r {
        Some(x) => Some(x@),
        None => None,
    }
}

impl View for DualVersionedData {
    type V = Map<ObjectId, DualVersionedObj<DocModel>>;

    closed spec fn view(&self) -> Map<ObjectId, DualVersionedObj<DocModel>> {
        self.objects@.map_values(|o: DualVersionedObj<DualVersionedDoc>| o@)
    }
}

impl DualVersionedData {
    pub closed spec fn wf(&self) -> bool {
        self.objects.wf()
    }

    /// Every stored document's version leaves room for one more.
    pub closed spec fn bounded(&self) -> bool {
        forall|k: ObjectId| #[trigger] self.objects@.contains_key(k) ==> obj_bounded(Some(self.objects@[k]))
    }

    pub fn new() -> (r: Self)
        ensures
            r.wf(),
            r.bounded(),
            r@ == Map::<ObjectId, DualVersionedObj<DocModel>>::empty(),
    {
        let r = DualVersionedData { objects: ObjectMap::new() };
        assert(r@ =~= Map::<ObjectId, DualVersionedObj<DocModel>>::empty());
        r
    }

    pub fn get_current(&self, object_id: &ObjectId) -> (r: Option<&DualVersionedValue>)
        requires
            self.wf(),
        ensures
            opt_record(r) == data_current(self@, *object_id),
    {
        match self.objects.get(object_id) {
            Some(obj) => match obj.get_current() {
                Some(doc) => Some(&doc.value),
                None => None,
            },
            None => None,
        }
    }

    pub fn get_active(&self, object_id: &ObjectId) -> (r: Option<&DualVersionedValue>)
        requires
            self.wf(),
        ensures
            opt_record(r) == data_active(self@, *object_id),
    {
        match self.objects.get(object_id) {
            Some(obj) => match obj.get_active() {
                Some(doc) => Some(&doc.value),
                None => None,
            },
            None => None,
        }
    }

    pub fn get(&self, object_id: &ObjectId, timeline: Timeline) -> (r: Option<&DualVersionedValue>)
        requires
            self.wf(),
        ensures
            opt_record(r) == (if timeline == Timeline::Current {
                data_current(self@, *object_id)
            } else {
                data_active(self@, *object_id)
            }),
    {
        match timeline {
            Timeline::Current => self.get_current(object_id),
            Timeline::Active => self.get_active(object_id),
        }
    }

    /// Builds the state from the records that are live on either timeline,
    /// as the store returns them; a record that fits no state is reported as
    /// inconsistent data.
    pub fn load(table_id: &String, docs: Vec<Write<DualVersionedValue>>) -> (r: Result<Self, Error>)
        ensures
            match load_fold(writes_view(docs@)) {
                Ok(m) => r.is_ok() && r.unwrap().wf() && r.unwrap()@ == m,
                Err(id) => r == Err::<Self, Error>(Error::InconsistentData(*table_id, id)),
            },
    {
        let ghost all = writes_view(docs@);
        let mut data = DualVersionedData::new();
        let mut rest = docs;
        let ghost orig = rest@;
        let n = rest.len();
        let mut i: usize = 0;
        assert(all.take(0) =~= Seq::<WriteView<DualRecord>>::empty());
        while i < n
            invariant
                n == all.len(),
                orig.len() == n,
                i <= n,
                rest@ == orig.subrange(i as int, n as int),
                all == writes_view(docs@),
                forall|j: int| 0 <= j < n ==> write_view(#[trigger] orig[j]) == all[j],
                data.wf(),
                load_fold(all.take(i as int)) == Ok::<Map<ObjectId, DualVersionedObj<DocModel>>, ElasticId>(data@),
            decreases n - i,
        {
            assert(rest@[0] == orig[i as int]);
            let w = rest.remove(0);
            proof {
                assert(all.take(i + 1).drop_last() =~= all.take(i as int));
                assert(all.take(i + 1).last() == write_view(w));
                assert(rest@ =~= orig.subrange(i + 1, n as int));
            }
            let (elastic_id, version, doc) = w;
            let Identified { object_id, value } = doc;
            let obj = match DualVersionedObj::from_doc(elastic_id, version, value) {
                Some(obj) => obj,
                None => {
                    proof {
                        lemma_fold_err(all, i + 1);
                    }
                    return Err(Error::InconsistentData(table_id.clone(), elastic_id));
                },
            };
            let ghost d0 = data@;
            match data.objects.remove(&object_id) {
                Some(prev) => {
                    let mut prev = prev;
                    let ghost p0 = prev;
                    let ghost o0 = obj;
                    let ok = prev.insert(obj);
                    proof {
                        lemma_combine_view(p0, o0);
                    }
                    if !ok {
                        proof {
                            lemma_fold_err(all, i + 1);
                        }
                        return Err(Error::InconsistentData(table_id.clone(), elastic_id));
                    }
                    data.objects.insert(object_id, prev);
                },
                None => {
                    data.objects.insert(object_id, obj);
                },
            }
            assert(data@ =~= load_fold(all.take(i + 1)).unwrap());
            i = i + 1;
        }
        assert(all.take(n as int) =~= all);
        Ok(data)
    }

    /// The ids of the objects held, each once.
    pub fn object_ids(&self) -> (r: Vec<ObjectId>)
        requires
            self.wf(),
        ensures
            forall|i: int, j: int| 0 <= i < j < r@.len() ==> r@[i] != r@[j],
            forall|k: ObjectId| self@.contains_key(k) <==> r@.contains(k),
    {
        proof {
            self.objects.lemma_keys();
        }
        let r = self.objects.keys();
        assert forall|k: ObjectId| self@.contains_key(k) <==> r@.contains(k) by {
            if self@.contains_key(k) {
                let i = choose|i: int| 0 <= i < self.objects.spec_len() && self.objects.key_at(i) == k;
                assert(r@[i] == k);
            }
            if r@.contains(k) {
                let i = choose|i: int| 0 <= i < r@.len() && r@[i] == k;
                assert(self.objects@.contains_key(self.objects.key_at(i)));
            }
        }
        r
    }

    /// The state held for an object.
    pub fn get_state(&self, object_id: &ObjectId) -> (r: Option<&DualVersionedObj<DualVersionedDoc>>)
        requires
            self.wf(),
        ensures
            match r {
                Some(o) => self@.contains_key(*object_id) && o@ == self@[*object_id],
                None => !self@.contains_key(*object_id),
            },
    {
        self.objects.get(object_id)
    }

    /// Whether every stored document's version leaves room for one more.
    pub fn check_bounded(&self) -> (r: bool)
        requires
            self.wf(),
        ensures
            r == self.bounded(),
    {
        proof {
            self.objects.lemma_keys();
        }
        let mut i: usize = 0;
        while i < self.objects.len()
            invariant
                self.wf(),
                i <= self.objects.spec_len(),
                forall|j: int| 0 <= j < i ==> obj_bounded(Some(#[trigger] self.objects@[self.objects.key_at(j)])),
            decreases self.objects.spec_len() - i,
        {
            let ok = match self.objects.value(i) {
                DualVersionedObj::Created { current, .. } => current.version < u64::MAX,
                DualVersionedObj::Removed { active } => active.version < u64::MAX,
                DualVersionedObj::Updated { active, current, .. } => active.version < u64::MAX && current.version < u64::MAX,
                DualVersionedObj::Activated { active } => active.version < u64::MAX,
            };
            if !ok {
                proof {
                    self.objects.lemma_keys();
                    let k = self.objects.key_at(i as int);
                    assert(self.objects@.contains_key(k));
                    assert(!obj_bounded(Some(self.objects@[k])));
                }
                return false;
            }
            i = i + 1;
        }
        assert forall|k: ObjectId| #[trigger] self.objects@.contains_key(k) implies obj_bounded(Some(self.objects@[k])) by {
            let j = choose|j: int| 0 <= j < self.objects.spec_len() && self.objects.key_at(j) == k;
            assert(obj_bounded(Some(self.objects@[self.objects.key_at(j)])));
        }
        true
    }
}

/// The token after an insert, given the pending one (if any).
pub open spec fn pending_insert(p: Option<DualVersionedUpdate<Seq<u8>>>, v: Seq<u8>, c: bool) -> DualVersionedUpdate<Seq<u8>> {
    match p {
        Some(t) => token_insert(t, v, c),
        None => DualVersionedUpdate::Insert(v, c),
    }
}

/// The token after a remove, given the pending one (if any).
pub open spec fn pending_remove(p: Option<DualVersionedUpdate<Seq<u8>>>) -> DualVersionedUpdate<Seq<u8>> {
    match p {
        Some(t) => token_remove(t),
        None => DualVersionedUpdate::Remove,
    }
}

/// The token after an activate, given the pending one (if any).
pub open spec fn pending_activate(p: Option<DualVersionedUpdate<Seq<u8>>>) -> DualVersionedUpdate<Seq<u8>> {
    match p {
        Some(t) => token_activate(t),
        None => DualVersionedUpdate::Activate,
    }
}

/// The payload visible on the current timeline for `k` within a transaction.
pub open spec fn tx_current(data: Map<ObjectId, DualVersionedObj<DocModel>>, pending: Map<ObjectId, DualVersionedUpdate<Seq<u8>>>, k: ObjectId) -> Option<Seq<u8>> {
    let base = payload_of(data_current(data, k));
    if pending.contains_key(k) {
        token_current(pending[k], base)
    } else {
        base
    }
}

/// The payload visible on the active timeline for `k` within a transaction.
pub open spec fn tx_active(data: Map<ObjectId, DualVersionedObj<DocModel>>, pending: Map<ObjectId, DualVersionedUpdate<Seq<u8>>>, k: ObjectId) -> Option<Seq<u8>> {
    let base_current = payload_of(data_current(data, k));
    let base_active = payload_of(data_active(data, k));
    if pending.contains_key(k) {
        token_active(pending[k], base_current, base_active)
    } else {
        base_active
    }
}

/// The view of an optional payload.
pub open spec fn opt_vview(o: Option<Vec<u8>>) -> Option<Seq<u8>> {
    match o {
        Some(x) => Some(x@),
        None => None,
    }
}

proof fn lemma_token_edit_views(t: DualVersionedUpdate<Vec<u8>>, v: Vec<u8>, c: bool)
    ensures
        token_insert(t, v, c)@ == token_insert(t@, v@, c),
        token_remove(t)@ == token_remove(t@),
        token_activate(t)@ == token_activate(t@),
{
}

proof fn lemma_token_views(t: DualVersionedUpdate<Vec<u8>>, bc: Option<Vec<u8>>, ba: Option<Vec<u8>>)
    ensures
        token_remove(t)@ == token_remove(t@),
        token_activate(t)@ == token_activate(t@),
        opt_vview(token_current(t, bc)) == token_current(t@, opt_vview(bc)),
        opt_vview(token_active(t, bc, ba)) == token_active(t@, opt_vview(bc), opt_vview(ba)),
{
}

/// The state and batch after committing the tokens `es` in order over
/// `data`, starting from batch `b`; `ids` holds the ids of the documents that
/// each commit creates.
pub open spec fn commit_all(
    data: Map<ObjectId, DualVersionedObj<DocModel>>,
    b: Seq<WriteView<DualRecord>>,
    es: Seq<(ObjectId, DualVersionedUpdate<Seq<u8>>)>,
    now: Timestamp,
    ids: Seq<(ElasticId, ElasticId)>,
) -> (Map<ObjectId, DualVersionedObj<DocModel>>, Seq<WriteView<DualRecord>>)
    decreases es.len(),
{
    if es.len() == 0 || ids.len() != es.len() {
        (data, b)
    } else {
        let (d, b1) = commit_all(data, b, es.drop_last(), now, ids.drop_last());
        let (oid, t) = es.last();
        let prior = if d.contains_key(oid) {
            Some(d[oid])
        } else {
            None
        };
        let (o, b2) = commit_spec(b1, oid, prior, t, now, ids.last().0, ids.last().1);
        (
            match o {
                Some(x) => d.insert(oid, x),
                None => d.remove(oid),
            },
            b2,
        )
    }
}

/// A transaction with no edits commits to the state it started from, and
/// writes nothing.
pub proof fn lemma_empty_commit(
    data: Map<ObjectId, DualVersionedObj<DocModel>>,
    now: Timestamp,
    ids: Seq<(ElasticId, ElasticId)>,
)
    ensures
        commit_all(data, Seq::empty(), Seq::empty(), now, ids) == (data, Seq::<WriteView<DualRecord>>::empty()),
{
}

/// Every state of the map is consistent.
pub open spec fn data_consistent(m: Map<ObjectId, DualVersionedObj<DocModel>>) -> bool {
    forall|k: ObjectId| #[trigger] m.contains_key(k) ==> obj_consistent(m[k])
}

/// The state held for `k`, if any.
pub open spec fn state_of(m: Map<ObjectId, DualVersionedObj<DocModel>>, k: ObjectId) -> Option<DualVersionedObj<DocModel>> {
    if m.contains_key(k) {
        Some(m[k])
    } else {
        None
    }
}

/// The ids drawn for each commit are two different ones, used by no
/// document of the object's state.
pub open spec fn fresh_ids(
    data: Map<ObjectId, DualVersionedObj<DocModel>>,
    es: Seq<(ObjectId, DualVersionedUpdate<Seq<u8>>)>,
    ids: Seq<(ElasticId, ElasticId)>,
) -> bool {
    &&& ids.len() == es.len()
    &&& forall|i: int|
        0 <= i < es.len() ==> (#[trigger] ids[i]).0 != ids[i].1 && id_unused(state_of(data, es[i].0), ids[i].0)
            && id_unused(state_of(data, es[i].0), ids[i].1)
}

/// What a commit of the tokens `es` (each object once) leaves for each
/// object: its state is unchanged where it has no token, and otherwise is
/// what the commit of its own token makes of its own state, whatever the
/// order of the tokens. Where the states were consistent and the ids fresh,
/// they stay consistent.
pub proof fn lemma_commit_all_frame(
    data: Map<ObjectId, DualVersionedObj<DocModel>>,
    b: Seq<WriteView<DualRecord>>,
    es: Seq<(ObjectId, DualVersionedUpdate<Seq<u8>>)>,
    now: Timestamp,
    ids: Seq<(ElasticId, ElasticId)>,
)
    requires
        forall|i: int, j: int| 0 <= i < j < es.len() ==> (#[trigger] es[i]).0 != (#[trigger] es[j]).0,
        ids.len() == es.len(),
    ensures
        data_consistent(data) && fresh_ids(data, es, ids) ==> data_consistent(commit_all(data, b, es, now, ids).0),
        forall|k: ObjectId|
            (forall|i: int| 0 <= i < es.len() ==> (#[trigger] es[i]).0 != k) ==> state_of(
                commit_all(data, b, es, now, ids).0,
                k,
            ) == state_of(data, k),
        forall|i: int|
            0 <= i < es.len() ==> state_of(commit_all(data, b, es, now, ids).0, (#[trigger] es[i]).0) == commit_state(
                es[i].0,
                state_of(data, es[i].0),
                es[i].1,
                now,
                ids[i].0,
                ids[i].1,
            ),
    decreases es.len(),
{
    if es.len() > 0 {
        let init = es.drop_last();
        let ids_init = ids.drop_last();
        assert forall|i: int, j: int| 0 <= i < j < init.len() implies (#[trigger] init[i]).0 != (#[trigger] init[j]).0 by {
            assert(init[i] == es[i] && init[j] == es[j]);
        }
        if fresh_ids(data, es, ids) {
            assert forall|i: int| 0 <= i < init.len() implies (#[trigger] ids_init[i]).0 != ids_init[i].1
                && id_unused(state_of(data, init[i].0), ids_init[i].0) && id_unused(state_of(data, init[i].0), ids_init[i].1) by {
                assert(init[i] == es[i] && ids_init[i] == ids[i]);
            }
        }
        lemma_commit_all_frame(data, b, init, now, ids_init);
        let (d, b1) = commit_all(data, b, init, now, ids_init);
        let (oid, t) = es.last();
        let last = es.len() - 1;
        assert(es[last] == es.last());
        assert forall|i: int| 0 <= i < init.len() implies (#[trigger] init[i]).0 != oid by {
            assert(init[i] == es[i]);
        }
        assert(state_of(d, oid) == state_of(data, oid));
        let prior = state_of(d, oid);
        assert(ids[last] == ids.last());
        let r = commit_all(data, b, es, now, ids).0;
        if data_consistent(data) && fresh_ids(data, es, ids) {
            assert(opt_consistent(prior));
            lemma_commit_keeps_state_consistent(b1, oid, prior, t, now, ids.last().0, ids.last().1);
            assert forall|k: ObjectId| #[trigger] r.contains_key(k) implies obj_consistent(r[k]) by {
                if k != oid {
                    assert(d.contains_key(k));
                }
            }
        }
        lemma_state_ignores_batch(b1, oid, prior, t, now, ids.last().0, ids.last().1);
        assert forall|i: int| 0 <= i < es.len() implies state_of(r, (#[trigger] es[i]).0) == commit_state(
            es[i].0,
            state_of(data, es[i].0),
            es[i].1,
            now,
            ids[i].0,
            ids[i].1,
        ) by {
            if i < last {
                assert(init[i] == es[i] && ids_init[i] == ids[i]);
                assert(es[i].0 != oid);
            }
        }
        assert forall|k: ObjectId|
            (forall|i: int| 0 <= i < es.len() ==> (#[trigger] es[i]).0 != k) implies state_of(r, k) == state_of(data, k) by {
            assert(es[last].0 != k);
            assert forall|i: int| 0 <= i < init.len() implies (#[trigger] init[i]).0 != k by {
                assert(init[i] == es[i]);
            }
        }
    }
}

/// After a commit, each object's state is consistent: at most one of its
/// records is live on the current timeline and at most one on the active
/// timeline, and a reload of the live records folds into the same state.
/// This holds where it held before and each commit of an object draws two
/// ids of its own.
pub proof fn lemma_commit_keeps_data_consistent(
    data: Map<ObjectId, DualVersionedObj<DocModel>>,
    es: Seq<(ObjectId, DualVersionedUpdate<Seq<u8>>)>,
    now: Timestamp,
    ids: Seq<(ElasticId, ElasticId)>,
)
    requires
        data_consistent(data),
        forall|i: int, j: int| 0 <= i < j < es.len() ==> (#[trigger] es[i]).0 != (#[trigger] es[j]).0,
        fresh_ids(data, es, ids),
    ensures
        data_consistent(commit_all(data, Seq::empty(), es, now, ids).0),
{
    lemma_commit_all_frame(data, Seq::empty(), es, now, ids);
}

/// `es` lists the entries of `p`, each key once.
pub open spec fn pending_matches<V>(p: Map<ObjectId, V>, es: Seq<(ObjectId, V)>) -> bool {
    &&& p.dom().finite()
    &&& es.len() == p.dom().len()
    &&& forall|i: int, j: int| 0 <= i < j < es.len() ==> (#[trigger] es[i]).0 != (#[trigger] es[j]).0
    &&& forall|i: int| 0 <= i < es.len() ==> p.contains_key((#[trigger] es[i]).0) && es[i].1 == p[es[i].0]
    &&& forall|k: ObjectId| #[trigger] p.contains_key(k) ==> exists|i: int| 0 <= i < es.len() && es[i].0 == k
}

/// A transaction on a dual-timeline table: the stored state, and a token of
/// pending edits for each object edited.
pub struct DualVersionedTransaction {
    data: DualVersionedData,
    updates: ObjectMap<DualVersionedUpdate<Vec<u8>>>,
}

impl DualVersionedTransaction {
    pub closed spec fn wf(&self) -> bool {
        self.data.wf() && self.updates.wf() && self.data.bounded()
    }

    /// The stored state the transaction works on.
    pub closed spec fn data_view(&self) -> Map<ObjectId, DualVersionedObj<DocModel>> {
        self.data@
    }

    /// The pending token of each object edited.
    pub closed spec fn pending(&self) -> Map<ObjectId, DualVersionedUpdate<Seq<u8>>> {
        self.updates@.map_values(|t: DualVersionedUpdate<Vec<u8>>| t@)
    }

    /// The pending tokens in the order the commit applies them.
    pub closed spec fn pending_entries(&self) -> Seq<(ObjectId, DualVersionedUpdate<Seq<u8>>)> {
        self.updates.entry_seq().map_values(|e: (ObjectId, DualVersionedUpdate<Vec<u8>>)| (e.0, e.1@))
    }

    /// The pending tokens in commit order are those of `pending()`, each
    /// object once.
    pub proof fn lemma_pending_entries(&self)
        requires
            self.wf(),
        ensures
            pending_matches(self.pending(), self.pending_entries()),
    {
        self.updates.lemma_keys();
        self.updates.lemma_entry_seq();
        let es = self.pending_entries();
        let p = self.pending();
        assert forall|i: int, j: int| 0 <= i < j < es.len() implies (#[trigger] es[i]).0 != (#[trigger] es[j]).0 by {
            assert(es[i].0 == self.updates.key_at(i));
            assert(es[j].0 == self.updates.key_at(j));
        }
        assert forall|i: int| 0 <= i < es.len() implies p.contains_key((#[trigger] es[i]).0) && es[i].1 == p[es[i].0] by {
            assert(es[i].0 == self.updates.key_at(i));
        }
        assert forall|k: ObjectId| #[trigger] p.contains_key(k) implies exists|i: int| 0 <= i < es.len() && es[i].0 == k by {
            let i = choose|i: int| 0 <= i < self.updates.spec_len() && self.updates.key_at(i) == k;
            assert(es[i].0 == k);
        }
        assert(p.dom() =~= self.updates@.dom());
    }

    pub fn new(data: DualVersionedData) -> (r: Self)
        requires
            data.wf(),
            data.bounded(),
        ensures
            r.wf(),
            r.data_view() == data@,
            r.pending() == Map::<ObjectId, DualVersionedUpdate<Seq<u8>>>::empty(),
            r.pending_entries() == Seq::<(ObjectId, DualVersionedUpdate<Seq<u8>>)>::empty(),
    {
        let r = DualVersionedTransaction { data, updates: ObjectMap::new() };
        assert(r.pending_entries() =~= Seq::<(ObjectId, DualVersionedUpdate<Seq<u8>>)>::empty());
        assert(r.pending() =~= Map::<ObjectId, DualVersionedUpdate<Seq<u8>>>::empty());
        r
    }

    /// The payload visible on the current timeline within the transaction.
    pub fn get_current(&self, object_id: &ObjectId) -> (r: Option<&Vec<u8>>)
        requires
            self.wf(),
        ensures
            opt_bytes(r) == tx_current(self.data_view(), self.pending(), *object_id),
    {
        let base = match self.data.get_current(object_id) {
            Some(v) => Some(&v.value),
            None => None,
        };
        match self.updates.get(object_id) {
            Some(t) => {
                let r = t.get_current(base);
                proof {
                    lemma_token_views(*t, opt_deref(base), None);
                }
                r
            },
            None => base,
        }
    }

    /// The payload visible on the active timeline within the transaction.
    pub fn get_active(&self, object_id: &ObjectId) -> (r: Option<&Vec<u8>>)
        requires
            self.wf(),
        ensures
            opt_bytes(r) == tx_active(self.data_view(), self.pending(), *object_id),
    {
        let base_current = match self.data.get_current(object_id) {
            Some(v) => Some(&v.value),
            None => None,
        };
        let base_active = match self.data.get_active(object_id) {
            Some(v) => Some(&v.value),
            None => None,
        };
        match self.updates.get(object_id) {
            Some(t) => {
                let r = t.get_active(base_current, base_active);
                proof {
                    lemma_token_views(*t, opt_deref(base_current), opt_deref(base_active));
                }
                r
            },
            None => base_active,
        }
    }

    /// Records an insert of `value` (committed or not), whatever the object's state.
    pub fn insert(&mut self, object_id: ObjectId, value: Vec<u8>, commit: bool)
        requires
            old(self).wf(),
        ensures
            final(self).wf(),
            final(self).data_view() == old(self).data_view(),
            final(self).pending() == old(self).pending().insert(
                object_id,
                pending_insert(old(self).pending().get(object_id), value@, commit),
            ),
    {
        let ghost vv = value@;
        match self.updates.remove(&object_id) {
            Some(t) => {
                proof {
                    lemma_token_edit_views(t, value, commit);
                }
                let mut t = t;
                t.insert(value, commit);
                self.updates.insert(object_id, t);
            },
            None => {
                self.updates.insert(object_id, DualVersionedUpdate::Insert(value, commit));
            },
        }
        assert(self.pending() =~= old(self).pending().insert(
            object_id,
            pending_insert(old(self).pending().get(object_id), vv, commit),
        ));
    }

    /// Records the creation of an object that is not live on the current
    /// timeline; false, with nothing recorded, where it is.
    pub fn create(&mut self, object_id: ObjectId, value: Vec<u8>, commit: bool) -> (r: bool)
        requires
            old(self).wf(),
        ensures
            final(self).wf(),
            r == tx_current(old(self).data_view(), old(self).pending(), object_id).is_none(),
            final(self).data_view() == old(self).data_view(),
            final(self).pending() == if r {
                old(self).pending().insert(object_id, pending_insert(old(self).pending().get(object_id), value@, commit))
            } else {
                old(self).pending()
            },
    {
        let live = self.get_current(&object_id).is_some();
        if live {
            false
        } else {
            self.insert(object_id, value, commit);
            true
        }
    }

    /// Records an update of an object that is live on the current timeline;
    /// false, with nothing recorded, where it is not.
    pub fn update(&mut self, object_id: ObjectId, value: Vec<u8>, commit: bool) -> (r: bool)
        requires
            old(self).wf(),
        ensures
            final(self).wf(),
            r == tx_current(old(self).data_view(), old(self).pending(), object_id).is_some(),
            final(self).data_view() == old(self).data_view(),
            final(self).pending() == if r {
                old(self).pending().insert(object_id, pending_insert(old(self).pending().get(object_id), value@, commit))
            } else {
                old(self).pending()
            },
    {
        let live = self.get_current(&object_id).is_some();
        if live {
            self.insert(object_id, value, commit);
            true
        } else {
            false
        }
    }

    /// Records the removal of an object that is live on the current
    /// timeline; false, with nothing recorded, where it is not.
    pub fn remove(&mut self, object_id: ObjectId) -> (r: bool)
        requires
            old(self).wf(),
        ensures
            final(self).wf(),
            r == tx_current(old(self).data_view(), old(self).pending(), object_id).is_some(),
            final(self).data_view() == old(self).data_view(),
            final(self).pending() == if r {
                old(self).pending().insert(object_id, pending_remove(old(self).pending().get(object_id)))
            } else {
                old(self).pending()
            },
    {
        let live = self.get_current(&object_id).is_some();
        if !live {
            return false;
        }
        match self.updates.remove(&object_id) {
            Some(t) => {
                proof {
                    lemma_token_views(t, None, None);
                }
                let mut t = t;
                t.remove();
                self.updates.insert(object_id, t);
            },
            None => {
                self.updates.insert(object_id, DualVersionedUpdate::Remove);
            },
        }
        assert(self.pending() =~= old(self).pending().insert(
            object_id,
            pending_remove(old(self).pending().get(object_id)),
        ));
        true
    }

    /// Records the activation of an object that is live on either timeline;
    /// false, with nothing recorded, where it is live on neither.
    pub fn activate(&mut self, object_id: ObjectId) -> (r: bool)
        requires
            old(self).wf(),
        ensures
            final(self).wf(),
            r == (tx_current(old(self).data_view(), old(self).pending(), object_id).is_some()
                || tx_active(old(self).data_view(), old(self).pending(), object_id).is_some()),
            final(self).data_view() == old(self).data_view(),
            final(self).pending() == if r {
                old(self).pending().insert(object_id, pending_activate(old(self).pending().get(object_id)))
            } else {
                old(self).pending()
            },
    {
        let live = self.get_current(&object_id).is_some() || self.get_active(&object_id).is_some();
        if !live {
            return false;
        }
        match self.updates.remove(&object_id) {
            Some(t) => {
                proof {
                    lemma_token_views(t, None, None);
                }
                let mut t = t;
                t.activate();
                self.updates.insert(object_id, t);
            },
            None => {
                self.updates.insert(object_id, DualVersionedUpdate::Activate);
            },
        }
        assert(self.pending() =~= old(self).pending().insert(
            object_id,
            pending_activate(old(self).pending().get(object_id)),
        ));
        true
    }

    /// Drops the pending edits and hands back the stored state unchanged.
    pub fn abort(self) -> (r: DualVersionedData)
        requires
            self.wf(),
        ensures
            r.wf(),
            r.bounded(),
            r@ == self.data_view(),
    {
        self.data
    }

    /// Commits the pending tokens at `now`: hands back the new stored state
    /// and the writes that take the store to it. Each commit of an object
    /// draws two fresh document ids for what it creates.
    pub fn commit(self, now: Timestamp) -> (r: (DualVersionedData, UpdateGuard<DualVersionedValue>))
        requires
            self.wf(),
        ensures
            r.0.wf(),
            r.1.wf(),
            pending_matches(self.pending(), self.pending_entries()),
            exists|ids: Seq<(ElasticId, ElasticId)>|
                fresh_ids(self.data_view(), self.pending_entries(), ids) && (r.0@, r.1@) == commit_all(
                    self.data_view(),
                    Seq::empty(),
                    self.pending_entries(),
                    now,
                    ids,
                ) && forall|i: int|
                    0 <= i < self.pending_entries().len() ==> state_of(r.0@, (#[trigger] self.pending_entries()[i]).0)
                        == commit_state(
                        self.pending_entries()[i].0,
                        state_of(self.data_view(), self.pending_entries()[i].0),
                        self.pending_entries()[i].1,
                        now,
                        ids[i].0,
                        ids[i].1,
                    ),
            forall|k: ObjectId| !self.pending().contains_key(k) ==> state_of(r.0@, k) == state_of(self.data_view(), k),
            data_consistent(self.data_view()) ==> data_consistent(r.0@),
    {
        proof {
            self.lemma_pending_entries();
        }
        let ghost es = self.pending_entries();
        let ghost p0 = self.pending();
        let ghost orig = self.data.objects@;
        let ghost orig_view = self.data_view();
        proof {
            self.updates.lemma_keys();
            self.updates.lemma_entry_seq();
        }
        let DualVersionedTransaction { data, updates } = self;
        let mut data = data;
        let mut entries = updates.into_entries();
        let ghost all = entries@;
        let n = entries.len();
        let mut batch: UpdateGuard<DualVersionedValue> = UpdateGuard::new();
        let ghost mut ids: Seq<(ElasticId, ElasticId)> = Seq::empty();
        assert(es.take(0) =~= Seq::<(ObjectId, DualVersionedUpdate<Seq<u8>>)>::empty());
        let mut i: usize = 0;
        while i < n
            invariant
                n == all.len(),
                i <= n,
                entries@ == all.subrange(i as int, n as int),
                es.len() == n,
                forall|j: int| 0 <= j < n ==> #[trigger] es[j] == (all[j].0, all[j].1@),
                forall|a: int, b: int| 0 <= a < b < n ==> #[trigger] all[a].0 != #[trigger] all[b].0,
                data.wf(),
                batch.wf(),
                ids.len() == i,
                (data@, batch@) == commit_all(orig_view, Seq::empty(), es.take(i as int), now, ids),
                forall|j: int|
                    i <= j < n ==> (data.objects@.contains_key(#[trigger] all[j].0) == orig.contains_key(all[j].0))
                        && (orig.contains_key(all[j].0) ==> data.objects@[all[j].0] == orig[all[j].0]),
                forall|k: ObjectId| #[trigger] orig.contains_key(k) ==> obj_bounded(Some(orig[k])),
                orig_view == orig.map_values(|o: DualVersionedObj<DualVersionedDoc>| o@),
                forall|j: int|
                    0 <= j < i ==> (#[trigger] ids[j]).0 != ids[j].1 && id_unused(state_of(orig_view, es[j].0), ids[j].0)
                        && id_unused(state_of(orig_view, es[j].0), ids[j].1),
            decreases n - i,
        {
            let ghost d0 = data@;
            let ghost raw0 = data.objects@;
            let ghost b0 = batch@;
            let ghost ids0 = ids;
            assert(entries@[0] == all[i as int]);
            let (oid, t) = entries.remove(0);
            assert(entries@ =~= all.subrange(i + 1, n as int));
            let obj = data.objects.remove(&oid);
            let (i1, i2) = state_ids(&obj);
            let fa = fresh_id(ElasticId::new(), i1, i2, None);
            let fb = fresh_id(ElasticId::new(), i1, i2, Some(fa));
            let ghost prior = if d0.contains_key(oid) { Some(d0[oid]) } else { None };
            assert(opt_view(obj) == prior);
            assert(es[i as int].0 == oid);
            assert(state_of(d0, oid) == state_of(orig_view, oid));
            let r = commit_object(&mut batch, oid, obj, t, now, fa, fb);
            let ghost rv = opt_view(r);
            match r {
                Some(x) => {
                    data.objects.insert(oid, x);
                },
                None => {},
            }
            proof {
                ids = ids.push((fa, fb));
                assert(es.take(i + 1).drop_last() =~= es.take(i as int));
                assert(ids.drop_last() =~= ids0);
                assert(es.take(i + 1).last() == (oid, t@));
                match rv {
                    Some(x) => {
                        assert(data@ =~= d0.insert(oid, x));
                    },
                    None => {
                        assert(data@ =~= d0.remove(oid));
                    },
                }
                assert forall|j: int| i + 1 <= j < n implies (data.objects@.contains_key(#[trigger] all[j].0)
                    == orig.contains_key(all[j].0)) && (orig.contains_key(all[j].0) ==> data.objects@[all[j].0]
                    == orig[all[j].0]) by {
                    assert(all[i as int].0 != all[j].0);
                }
            }
            i = i + 1;
        }
        assert(es.take(n as int) =~= es);
        assert(ids.len() == es.len() && (data@, batch@) == commit_all(orig_view, Seq::empty(), es, now, ids));
        assert(fresh_ids(orig_view, es, ids));
        proof {
            lemma_commit_all_frame(orig_view, Seq::empty(), es, now, ids);
            assert forall|k: ObjectId| !p0.contains_key(k) implies state_of(data@, k) == state_of(orig_view, k) by {
                assert forall|i: int| 0 <= i < es.len() implies (#[trigger] es[i]).0 != k by {}
            }
        }
        (data, batch)
    }
}

/// A document that stands in a state while its own value is moved out.
fn vacant_doc() -> (r: DualVersionedDoc) {
    ElasticDoc::with_id(ElasticId { id: 0 }, DualVersionedValue::new(0, Vec::new(), false))
}

impl DualVersionedObj<DualVersionedDoc> {
    /// Pairs `other` into this state; false, with this state kept, where they do not pair.
    pub fn insert(&mut self, other: Self) -> (r: bool)
        ensures
            r == obj_combine(*old(self), other).is_some(),
            match obj_combine(*old(self), other) {
                Some(o) => *final(self) == o,
                None => *final(self) == *old(self),
            },
    {
        let mut this = DualVersionedObj::Removed { active: vacant_doc() };
        std::mem::swap(self, &mut this);
        match this.combine(other) {
            Ok(obj) => {
                *self = obj;
                true
            },
            Err(this) => {
                *self = this;
                false
            },
        }
    }


    /// The state that a stored record stands for, by which of its timelines are open.
    pub fn from_doc(elastic_id: ElasticId, version: u64, value: DualVersionedValue) -> (r: Option<Self>)
        ensures
            match doc_state(ElasticDoc { elastic_id, version, value: value@ }) {
                Some(o) => r.is_some() && r.unwrap()@ == o,
                None => r.is_none(),
            },
    {
        let is_current = value.version.current.to.is_none();
        let is_active = match value.version.active {
            Some(a) => a.to.is_none(),
            None => false,
        };
        let committed = value.version.committed.is_some();
        let doc = ElasticDoc { elastic_id, version, value };
        if is_current && is_active {
            Some(DualVersionedObj::Activated { active: doc })
        } else if is_active {
            Some(DualVersionedObj::Removed { active: doc })
        } else if is_current {
            Some(DualVersionedObj::Created { current: doc, committed })
        } else {
            None
        }
    }
}

} // verus!
