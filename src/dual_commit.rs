//! Commit of a dual-timeline transaction, object by object: from the stored
//! state and the update token to the writes and the new state.
use vstd::prelude::*;

use crate::dual_versioned_data::{doc_state, DocModel, DualVersionedDoc, DualVersionedObj, DualVersionedUpdate};
use crate::ids::{ElasticId, ObjectId, Timestamp};
use crate::table_data::ElasticDoc;
use crate::updates::{put, UpdateGuard, WriteView};
use crate::versioned::{DualRecord, DualVersionedValue, Record};

verus! {

pub type Batch = Seq<WriteView<DualRecord>>;

pub type ObjModel = DualVersionedObj<DocModel>;

/// The next version of document `d`, holding `r`.
pub open spec fn bump(d: DocModel, r: DualRecord) -> DocModel {
    ElasticDoc { elastic_id: d.elastic_id, version: (d.version + 1) as u64, value: r }
}

/// A new document `id` at version 0, holding `r`.
pub open spec fn fresh(id: ElasticId, r: DualRecord) -> DocModel {
    ElasticDoc { elastic_id: id, version: 0, value: r }
}

/// The write of document `d` for object `oid`.
pub open spec fn wr(oid: ObjectId, d: DocModel) -> WriteView<DualRecord> {
    (d.elastic_id, d.version, oid, d.value)
}

/// Commit of an `Insert(v, c)` token.
pub open spec fn commit_insert(b: Batch, oid: ObjectId, prior: Option<ObjModel>, v: Seq<u8>, c: bool, now: Timestamp, fa: ElasticId) -> (Option<ObjModel>, Batch) {
    match prior {
        Some(DualVersionedObj::Created { current, committed }) => if committed {
            let p = bump(current, current.value.removed(now));
            let n = fresh(fa, current.value.updated(now, v, c));
            (Some(DualVersionedObj::Created { current: n, committed: c }), put(put(b, wr(oid, p)), wr(oid, n)))
        } else {
            let n = bump(current, current.value.updated_uncommitted(now, v, c));
            (Some(DualVersionedObj::Created { current: n, committed: c }), put(b, wr(oid, n)))
        },
        Some(DualVersionedObj::Removed { active }) => {
            let n = fresh(fa, DualRecord::created(now, v, c));
            (Some(DualVersionedObj::Updated { active, current: n, committed: c }), put(b, wr(oid, n)))
        },
        Some(DualVersionedObj::Activated { active }) => {
            let p = bump(active, active.value.removed(now));
            let n = fresh(fa, active.value.updated(now, v, c));
            (Some(DualVersionedObj::Updated { active: p, current: n, committed: c }), put(put(b, wr(oid, p)), wr(oid, n)))
        },
        Some(DualVersionedObj::Updated { active, current, committed }) => if committed {
            let p = bump(current, current.value.removed(now));
            let n = fresh(fa, current.value.updated(now, v, c));
            (Some(DualVersionedObj::Updated { active, current: n, committed: c }), put(put(b, wr(oid, p)), wr(oid, n)))
        } else {
            let n = bump(current, current.value.updated_uncommitted(now, v, c));
            (Some(DualVersionedObj::Updated { active, current: n, committed: c }), put(b, wr(oid, n)))
        },
        None => {
            let n = fresh(fa, DualRecord::created(now, v, c));
            (Some(DualVersionedObj::Created { current: n, committed: c }), put(b, wr(oid, n)))
        },
    }
}

/// Commit of a `Remove` token.
pub open spec fn commit_remove(b: Batch, oid: ObjectId, prior: Option<ObjModel>, now: Timestamp) -> (Option<ObjModel>, Batch) {
    match prior {
        Some(DualVersionedObj::Created { current, .. }) =>
            (None, put(b, wr(oid, bump(current, current.value.removed(now))))),
        Some(DualVersionedObj::Updated { active, current, .. }) =>
            (Some(DualVersionedObj::Removed { active }), put(b, wr(oid, bump(current, current.value.removed(now))))),
        Some(DualVersionedObj::Activated { active }) => {
            let a = bump(active, active.value.removed(now));
            (Some(DualVersionedObj::Removed { active: a }), put(b, wr(oid, a)))
        },
        _ => (prior, b),
    }
}

/// Commit of an `Activate` token.
pub open spec fn commit_activate(b: Batch, oid: ObjectId, prior: Option<ObjModel>, now: Timestamp) -> (Option<ObjModel>, Batch) {
    match prior {
        Some(DualVersionedObj::Created { current, .. }) => {
            let a = bump(current, current.value.activated(now, None));
            (Some(DualVersionedObj::Activated { active: a }), put(b, wr(oid, a)))
        },
        Some(DualVersionedObj::Updated { active, current, .. }) => {
            let n = bump(current, current.value.activated(now, active.value.version.active));
            let o = bump(active, active.value.activate_removed(now));
            (Some(DualVersionedObj::Activated { active: n }), put(put(b, wr(oid, n)), wr(oid, o)))
        },
        Some(DualVersionedObj::Removed { active }) =>
            (None, put(b, wr(oid, bump(active, active.value.activate_removed(now))))),
        _ => (prior, b),
    }
}

/// Commit of an `ActivateInsert(v, c)` token.
pub open spec fn commit_activate_insert(b: Batch, oid: ObjectId, prior: Option<ObjModel>, v: Seq<u8>, c: bool, now: Timestamp, fa: ElasticId) -> (Option<ObjModel>, Batch) {
    match prior {
        Some(DualVersionedObj::Created { current, .. }) => {
            let p = bump(current, current.value.activated(now, None).removed(now));
            let n = fresh(fa, current.value.updated(now, v, c));
            (Some(DualVersionedObj::Updated { active: p, current: n, committed: c }), put(put(b, wr(oid, p)), wr(oid, n)))
        },
        Some(DualVersionedObj::Updated { active, current, .. }) => {
            let p = bump(current, current.value.activated(now, active.value.version.active).removed(now));
            let n = fresh(fa, current.value.updated(now, v, c));
            let o = bump(active, active.value.activate_removed(now));
            (Some(DualVersionedObj::Updated { active: p, current: n, committed: c }), put(put(put(b, wr(oid, p)), wr(oid, n)), wr(oid, o)))
        },
        Some(DualVersionedObj::Removed { active }) => {
            let p = bump(active, active.value.activate_removed(now));
            let n = fresh(fa, active.value.updated(now, v, c));
            (Some(DualVersionedObj::Created { current: n, committed: c }), put(put(b, wr(oid, p)), wr(oid, n)))
        },
        Some(DualVersionedObj::Activated { active }) => {
            let p = bump(active, active.value.removed(now));
            let n = fresh(fa, active.value.updated(now, v, c));
            (Some(DualVersionedObj::Updated { active: p, current: n, committed: c }), put(put(b, wr(oid, p)), wr(oid, n)))
        },
        None => {
            let n = fresh(fa, DualRecord::created(now, v, c));
            (Some(DualVersionedObj::Created { current: n, committed: c }), put(b, wr(oid, n)))
        },
    }
}

/// Commit of an `ActivateRemove` token.
pub open spec fn commit_activate_remove(b: Batch, oid: ObjectId, prior: Option<ObjModel>, now: Timestamp) -> (Option<ObjModel>, Batch) {
    match prior {
        Some(DualVersionedObj::Created { current, .. }) => {
            let a = bump(current, current.value.activated(now, None).removed(now));
            (Some(DualVersionedObj::Removed { active: a }), put(b, wr(oid, a)))
        },
        Some(DualVersionedObj::Updated { active, current, .. }) => {
            let n = bump(current, current.value.activated(now, active.value.version.active).removed(now));
            let o = bump(active, active.value.activate_removed(now));
            (Some(DualVersionedObj::Removed { active: n }), put(put(b, wr(oid, n)), wr(oid, o)))
        },
        Some(DualVersionedObj::Removed { active }) =>
            (None, put(b, wr(oid, bump(active, active.value.activate_removed(now))))),
        Some(DualVersionedObj::Activated { active }) => {
            let a = bump(active, active.value.removed(now));
            (Some(DualVersionedObj::Removed { active: a }), put(b, wr(oid, a)))
        },
        None => (None, b),
    }
}

/// Commit of an `InsertActivate(v)` token.
pub open spec fn commit_insert_activate(b: Batch, oid: ObjectId, prior: Option<ObjModel>, v: Seq<u8>, now: Timestamp, fa: ElasticId) -> (Option<ObjModel>, Batch) {
    match prior {
        Some(DualVersionedObj::Created { current, committed }) => if !committed {
            let n = bump(current, current.value.updated_uncommitted(now, v, true).activated(now, None));
            (Some(DualVersionedObj::Activated { active: n }), put(b, wr(oid, n)))
        } else {
            let p = bump(current, current.value.removed(now));
            let n = fresh(fa, current.value.updated(now, v, true).activated(now, None));
            (Some(DualVersionedObj::Activated { active: n }), put(put(b, wr(oid, p)), wr(oid, n)))
        },
        Some(DualVersionedObj::Updated { active, current, committed }) => {
            let pa = active.value.version.active;
            let o = bump(active, active.value.activate_removed(now));
            if !committed {
                let n = bump(current, current.value.updated_uncommitted(now, v, true).activated(now, pa));
                (Some(DualVersionedObj::Activated { active: n }), put(put(b, wr(oid, n)), wr(oid, o)))
            } else {
                let p = bump(current, current.value.removed(now));
                let n = fresh(fa, current.value.updated(now, v, true).activated(now, pa));
                (Some(DualVersionedObj::Activated { active: n }), put(put(put(b, wr(oid, p)), wr(oid, n)), wr(oid, o)))
            }
        },
        Some(DualVersionedObj::Removed { active }) => {
            let p = bump(active, active.value.activate_removed(now));
            let n = fresh(fa, active.value.updated(now, v, true).activated(now, active.value.version.active));
            (Some(DualVersionedObj::Activated { active: n }), put(put(b, wr(oid, p)), wr(oid, n)))
        },
        Some(DualVersionedObj::Activated { active }) => {
            let p = bump(active, active.value.removed(now).activate_removed(now));
            let n = fresh(fa, active.value.updated(now, v, true).activated(now, active.value.version.active));
            (Some(DualVersionedObj::Activated { active: n }), put(put(b, wr(oid, p)), wr(oid, n)))
        },
        None => {
            let n = fresh(fa, DualRecord::created(now, v, true).activated(now, None));
            (Some(DualVersionedObj::Activated { active: n }), put(b, wr(oid, n)))
        },
    }
}

/// Commit of an `InsertActivateInsert(before, after, c)` token.
pub open spec fn commit_insert_activate_insert(b: Batch, oid: ObjectId, prior: Option<ObjModel>, bv: Seq<u8>, av: Seq<u8>, c: bool, now: Timestamp, fa: ElasticId, fb: ElasticId) -> (Option<ObjModel>, Batch) {
    match prior {
        Some(DualVersionedObj::Created { current, committed }) => if !committed {
            let p = bump(current, current.value.updated_uncommitted(now, bv, true).activated(now, None).removed(now));
            let n = fresh(fa, current.value.updated(now, av, c));
            (Some(DualVersionedObj::Updated { active: p, current: n, committed: c }), put(put(b, wr(oid, p)), wr(oid, n)))
        } else {
            let o = bump(current, current.value.removed(now));
            let a = fresh(fa, current.value.updated(now, bv, true).activated(now, None).removed(now));
            let n = fresh(fb, current.value.updated(now, av, c));
            (Some(DualVersionedObj::Updated { active: a, current: n, committed: c }), put(put(put(b, wr(oid, o)), wr(oid, a)), wr(oid, n)))
        },
        Some(DualVersionedObj::Updated { active, current, committed }) => {
            let pa = active.value.version.active;
            let o = bump(active, active.value.activate_removed(now));
            if !committed {
                let p = bump(current, current.value.updated_uncommitted(now, bv, true).activated(now, pa).removed(now));
                let n = fresh(fa, current.value.updated(now, av, c));
                (Some(DualVersionedObj::Updated { active: p, current: n, committed: c }), put(put(put(b, wr(oid, o)), wr(oid, p)), wr(oid, n)))
            } else {
                let oc = bump(current, current.value.removed(now));
                let a = fresh(fa, current.value.updated(now, bv, true).activated(now, pa).removed(now));
                let n = fresh(fb, current.value.updated(now, av, c));
                (Some(DualVersionedObj::Updated { active: a, current: n, committed: c }), put(put(put(put(b, wr(oid, o)), wr(oid, oc)), wr(oid, a)), wr(oid, n)))
            }
        },
        Some(DualVersionedObj::Removed { active }) => {
            let o = bump(active, active.value.activate_removed(now));
            let a = fresh(fa, DualRecord::created(now, bv, true).activated(now, active.value.version.active).removed(now));
            let n = fresh(fb, DualRecord::created(now, av, c));
            (Some(DualVersionedObj::Updated { active: a, current: n, committed: c }), put(put(put(b, wr(oid, o)), wr(oid, a)), wr(oid, n)))
        },
        Some(DualVersionedObj::Activated { active }) => {
            let o = bump(active, active.value.removed(now).activate_removed(now));
            let a = fresh(fa, active.value.updated(now, bv, true).activated(now, active.value.version.active).removed(now));
            let n = fresh(fb, active.value.updated(now, av, c));
            (Some(DualVersionedObj::Updated { active: a, current: n, committed: c }), put(put(put(b, wr(oid, o)), wr(oid, a)), wr(oid, n)))
        },
        None => {
            let a = fresh(fa, DualRecord::created(now, bv, true).activated(now, None).removed(now));
            let n = fresh(fb, DualRecord::created(now, av, c));
            (Some(DualVersionedObj::Updated { active: a, current: n, committed: c }), put(put(b, wr(oid, a)), wr(oid, n)))
        },
    }
}

/// Commit of an `InsertActivateRemove(v)` token.
pub open spec fn commit_insert_activate_remove(b: Batch, oid: ObjectId, prior: Option<ObjModel>, v: Seq<u8>, now: Timestamp, fa: ElasticId) -> (Option<ObjModel>, Batch) {
    match prior {
        Some(DualVersionedObj::Created { current, committed }) => if !committed {
            let n = bump(current, current.value.updated_uncommitted(now, v, true).activated(now, None).removed(now));
            (Some(DualVersionedObj::Removed { active: n }), put(b, wr(oid, n)))
        } else {
            let o = bump(current, current.value.removed(now));
            let a = fresh(fa, current.value.updated(now, v, true).activated(now, None).removed(now));
            (Some(DualVersionedObj::Removed { active: a }), put(put(b, wr(oid, o)), wr(oid, a)))
        },
        Some(DualVersionedObj::Updated { active, current, committed }) => {
            let pa = active.value.version.active;
            let o = bump(active, active.value.activate_removed(now));
            if !committed {
                let n = bump(current, current.value.updated_uncommitted(now, v, true).activated(now, pa).removed(now));
                (Some(DualVersionedObj::Removed { active: n }), put(put(b, wr(oid, o)), wr(oid, n)))
            } else {
                let oc = bump(current, current.value.removed(now));
                let a = fresh(fa, current.value.updated(now, v, true).activated(now, pa).removed(now));
                (Some(DualVersionedObj::Removed { active: a }), put(put(put(b, wr(oid, o)), wr(oid, oc)), wr(oid, a)))
            }
        },
        Some(DualVersionedObj::Removed { active }) => {
            let o = bump(active, active.value.activate_removed(now));
            let a = fresh(fa, DualRecord::created(now, v, true).activated(now, active.value.version.active).removed(now));
            (Some(DualVersionedObj::Removed { active: a }), put(put(b, wr(oid, o)), wr(oid, a)))
        },
        Some(DualVersionedObj::Activated { active }) => {
            let o = bump(active, active.value.removed(now).activate_removed(now));
            let a = fresh(fa, active.value.updated(now, v, true).activated(now, active.value.version.active).removed(now));
            (Some(DualVersionedObj::Removed { active: a }), put(put(b, wr(oid, o)), wr(oid, a)))
        },
        None => {
            let a = fresh(fa, DualRecord::created(now, v, true).activated(now, None).removed(now));
            (Some(DualVersionedObj::Removed { active: a }), put(b, wr(oid, a)))
        },
    }
}

/// Commit of a `RemoveActivate` token.
pub open spec fn commit_remove_activate(b: Batch, oid: ObjectId, prior: Option<ObjModel>, now: Timestamp) -> (Option<ObjModel>, Batch) {
    match prior {
        Some(DualVersionedObj::Created { current, .. }) =>
            (None, put(b, wr(oid, bump(current, current.value.removed(now))))),
        Some(DualVersionedObj::Updated { active, current, .. }) =>
            (None, put(put(b, wr(oid, bump(active, active.value.activate_removed(now)))), wr(oid, bump(current, current.value.removed(now))))),
        Some(DualVersionedObj::Removed { active }) =>
            (None, put(b, wr(oid, bump(active, active.value.activate_removed(now))))),
        Some(DualVersionedObj::Activated { active }) =>
            (None, put(b, wr(oid, bump(active, active.value.removed(now).activate_removed(now))))),
        None => (None, b),
    }
}

/// Commit of a `RemoveActivateInsert(v, c)` token.
pub open spec fn commit_remove_activate_insert(b: Batch, oid: ObjectId, prior: Option<ObjModel>, v: Seq<u8>, c: bool, now: Timestamp, fa: ElasticId) -> (Option<ObjModel>, Batch) {
    let n = fresh(fa, DualRecord::created(now, v, c));
    let state = Some(DualVersionedObj::Created { current: n, committed: c });
    match prior {
        Some(DualVersionedObj::Created { current, .. }) =>
            (state, put(put(b, wr(oid, bump(current, current.value.removed(now)))), wr(oid, n))),
        Some(DualVersionedObj::Updated { active, current, .. }) => {
            let oc = bump(current, current.value.activated(now, active.value.version.active).removed(now).activate_removed(now));
            let o = bump(active, active.value.activate_removed(now));
            (state, put(put(put(b, wr(oid, oc)), wr(oid, o)), wr(oid, n)))
        },
        Some(DualVersionedObj::Removed { active }) =>
            (state, put(put(b, wr(oid, bump(active, active.value.activate_removed(now)))), wr(oid, n))),
        Some(DualVersionedObj::Activated { active }) =>
            (state, put(put(b, wr(oid, bump(active, active.value.removed(now).activate_removed(now)))), wr(oid, n))),
        None => (state, put(b, wr(oid, n))),
    }
}

/// Commit of one object: the new state (none where the object is gone) and
/// the batch with the object's writes added. `fa` and `fb` are the ids of the
/// documents that the commit creates, in that order.
pub open spec fn commit_spec(b: Batch, oid: ObjectId, prior: Option<ObjModel>, t: DualVersionedUpdate<Seq<u8>>, now: Timestamp, fa: ElasticId, fb: ElasticId) -> (Option<ObjModel>, Batch) {
    match t {
        DualVersionedUpdate::Insert(v, c) => commit_insert(b, oid, prior, v, c, now, fa),
        DualVersionedUpdate::Remove => commit_remove(b, oid, prior, now),
        DualVersionedUpdate::Activate => commit_activate(b, oid, prior, now),
        DualVersionedUpdate::ActivateInsert(v, c) => commit_activate_insert(b, oid, prior, v, c, now, fa),
        DualVersionedUpdate::ActivateRemove => commit_activate_remove(b, oid, prior, now),
        DualVersionedUpdate::InsertActivate(v) => commit_insert_activate(b, oid, prior, v, now, fa),
        DualVersionedUpdate::InsertActivateInsert(bv, av, c) => commit_insert_activate_insert(b, oid, prior, bv, av, c, now, fa, fb),
        DualVersionedUpdate::InsertActivateRemove(v) => commit_insert_activate_remove(b, oid, prior, v, now, fa),
        DualVersionedUpdate::RemoveActivate => commit_remove_activate(b, oid, prior, now),
        DualVersionedUpdate::RemoveActivateInsert(v, c) => commit_remove_activate_insert(b, oid, prior, v, c, now, fa),
    }
}

/// The documents of a state stand, each alone, for the part they play in it:
/// what a reload of the live records would fold back into the same state.
pub open spec fn obj_consistent(o: ObjModel) -> bool {
    match o {
        DualVersionedObj::Created { current, committed } =>
            doc_state(current) == Some(DualVersionedObj::Created { current, committed }),
        DualVersionedObj::Removed { active } => doc_state(active) == Some(DualVersionedObj::Removed { active }),
        DualVersionedObj::Updated { active, current, committed } => {
            &&& doc_state(active) == Some(DualVersionedObj::<DocModel>::Removed { active })
            &&& doc_state(current) == Some(DualVersionedObj::Created { current, committed })
            &&& active.elastic_id != current.elastic_id
        },
        DualVersionedObj::Activated { active } => doc_state(active) == Some(DualVersionedObj::Activated { active }),
    }
}

pub open spec fn opt_consistent(o: Option<ObjModel>) -> bool {
    match o {
        Some(x) => obj_consistent(x),
        None => true,
    }
}

/// `id` is the id of no document of the state.
pub open spec fn id_unused(o: Option<ObjModel>, id: ElasticId) -> bool {
    match o {
        Some(DualVersionedObj::Created { current, .. }) => current.elastic_id != id,
        Some(DualVersionedObj::Removed { active }) => active.elastic_id != id,
        Some(DualVersionedObj::Updated { active, current, .. }) => active.elastic_id != id && current.elastic_id != id,
        Some(DualVersionedObj::Activated { active }) => active.elastic_id != id,
        None => true,
    }
}

proof fn lemma_insert_consistent(b: Batch, oid: ObjectId, prior: Option<ObjModel>, v: Seq<u8>, c: bool, now: Timestamp, fa: ElasticId, fb: ElasticId)
    requires
        opt_consistent(prior),
        fa != fb,
        id_unused(prior, fa),
        id_unused(prior, fb),
    ensures
        opt_consistent(commit_insert(b, oid, prior, v, c, now, fa).0),
{
    match prior {
        Some(DualVersionedObj::Created { .. }) => {},
        Some(DualVersionedObj::Removed { .. }) => {},
        Some(DualVersionedObj::Updated { .. }) => {},
        Some(DualVersionedObj::Activated { .. }) => {},
        None => {},
    }
}

proof fn lemma_remove_consistent(b: Batch, oid: ObjectId, prior: Option<ObjModel>, now: Timestamp, fa: ElasticId, fb: ElasticId)
    requires
        opt_consistent(prior),
        fa != fb,
        id_unused(prior, fa),
        id_unused(prior, fb),
    ensures
        opt_consistent(commit_remove(b, oid, prior, now).0),
{
    match prior {
        Some(DualVersionedObj::Created { .. }) => {},
        Some(DualVersionedObj::Removed { .. }) => {},
        Some(DualVersionedObj::Updated { .. }) => {},
        Some(DualVersionedObj::Activated { .. }) => {},
        None => {},
    }
}

proof fn lemma_activate_consistent(b: Batch, oid: ObjectId, prior: Option<ObjModel>, now: Timestamp, fa: ElasticId, fb: ElasticId)
    requires
        opt_consistent(prior),
        fa != fb,
        id_unused(prior, fa),
        id_unused(prior, fb),
    ensures
        opt_consistent(commit_activate(b, oid, prior, now).0),
{
    match prior {
        Some(DualVersionedObj::Created { .. }) => {},
        Some(DualVersionedObj::Removed { .. }) => {},
        Some(DualVersionedObj::Updated { .. }) => {},
        Some(DualVersionedObj::Activated { .. }) => {},
        None => {},
    }
}

proof fn lemma_activate_insert_consistent(b: Batch, oid: ObjectId, prior: Option<ObjModel>, v: Seq<u8>, c: bool, now: Timestamp, fa: ElasticId, fb: ElasticId)
    requires
        opt_consistent(prior),
        fa != fb,
        id_unused(prior, fa),
        id_unused(prior, fb),
    ensures
        opt_consistent(commit_activate_insert(b, oid, prior, v, c, now, fa).0),
{
    match prior {
        Some(DualVersionedObj::Created { .. }) => {},
        Some(DualVersionedObj::Removed { .. }) => {},
        Some(DualVersionedObj::Updated { .. }) => {},
        Some(DualVersionedObj::Activated { .. }) => {},
        None => {},
    }
}

proof fn lemma_activate_remove_consistent(b: Batch, oid: ObjectId, prior: Option<ObjModel>, now: Timestamp, fa: ElasticId, fb: ElasticId)
    requires
        opt_consistent(prior),
        fa != fb,
        id_unused(prior, fa),
        id_unused(prior, fb),
    ensures
        opt_consistent(commit_activate_remove(b, oid, prior, now).0),
{
    match prior {
        Some(DualVersionedObj::Created { .. }) => {},
        Some(DualVersionedObj::Removed { .. }) => {},
        Some(DualVersionedObj::Updated { .. }) => {},
        Some(DualVersionedObj::Activated { .. }) => {},
        None => {},
    }
}

proof fn lemma_insert_activate_consistent(b: Batch, oid: ObjectId, prior: Option<ObjModel>, v: Seq<u8>, now: Timestamp, fa: ElasticId, fb: ElasticId)
    requires
        opt_consistent(prior),
        fa != fb,
        id_unused(prior, fa),
        id_unused(prior, fb),
    ensures
        opt_consistent(commit_insert_activate(b, oid, prior, v, now, fa).0),
{
    match prior {
        Some(DualVersionedObj::Created { .. }) => {},
        Some(DualVersionedObj::Removed { .. }) => {},
        Some(DualVersionedObj::Updated { .. }) => {},
        Some(DualVersionedObj::Activated { .. }) => {},
        None => {},
    }
}

proof fn lemma_insert_activate_insert_consistent(b: Batch, oid: ObjectId, prior: Option<ObjModel>, bv: Seq<u8>, av: Seq<u8>, c: bool, now: Timestamp, fa: ElasticId, fb: ElasticId)
    requires
        opt_consistent(prior),
        fa != fb,
        id_unused(prior, fa),
        id_unused(prior, fb),
    ensures
        opt_consistent(commit_insert_activate_insert(b, oid, prior, bv, av, c, now, fa, fb).0),
{
    match prior {
        Some(DualVersionedObj::Created { .. }) => {},
        Some(DualVersionedObj::Removed { .. }) => {},
        Some(DualVersionedObj::Updated { .. }) => {},
        Some(DualVersionedObj::Activated { .. }) => {},
        None => {},
    }
}

proof fn lemma_insert_activate_remove_consistent(b: Batch, oid: ObjectId, prior: Option<ObjModel>, v: Seq<u8>, now: Timestamp, fa: ElasticId, fb: ElasticId)
    requires
        opt_consistent(prior),
        fa != fb,
        id_unused(prior, fa),
        id_unused(prior, fb),
    ensures
        opt_consistent(commit_insert_activate_remove(b, oid, prior, v, now, fa).0),
{
    match prior {
        Some(DualVersionedObj::Created { .. }) => {},
        Some(DualVersionedObj::Removed { .. }) => {},
        Some(DualVersionedObj::Updated { .. }) => {},
        Some(DualVersionedObj::Activated { .. }) => {},
        None => {},
    }
}

proof fn lemma_remove_activate_consistent(b: Batch, oid: ObjectId, prior: Option<ObjModel>, now: Timestamp, fa: ElasticId, fb: ElasticId)
    requires
        opt_consistent(prior),
        fa != fb,
        id_unused(prior, fa),
        id_unused(prior, fb),
    ensures
        opt_consistent(commit_remove_activate(b, oid, prior, now).0),
{
    match prior {
        Some(DualVersionedObj::Created { .. }) => {},
        Some(DualVersionedObj::Removed { .. }) => {},
        Some(DualVersionedObj::Updated { .. }) => {},
        Some(DualVersionedObj::Activated { .. }) => {},
        None => {},
    }
}

proof fn lemma_remove_activate_insert_consistent(b: Batch, oid: ObjectId, prior: Option<ObjModel>, v: Seq<u8>, c: bool, now: Timestamp, fa: ElasticId, fb: ElasticId)
    requires
        opt_consistent(prior),
        fa != fb,
        id_unused(prior, fa),
        id_unused(prior, fb),
    ensures
        opt_consistent(commit_remove_activate_insert(b, oid, prior, v, c, now, fa).0),
{
    match prior {
        Some(DualVersionedObj::Created { .. }) => {},
        Some(DualVersionedObj::Removed { .. }) => {},
        Some(DualVersionedObj::Updated { .. }) => {},
        Some(DualVersionedObj::Activated { .. }) => {},
        None => {},
    }
}

/// A commit takes a consistent state to a consistent state: at most one
/// record of the object stays live on each timeline, and a reload of the
/// live records folds into the state the commit computed. The new documents
/// need ids of their own.
pub proof fn lemma_commit_keeps_state_consistent(
    b: Batch,
    oid: ObjectId,
    prior: Option<ObjModel>,
    t: DualVersionedUpdate<Seq<u8>>,
    now: Timestamp,
    fa: ElasticId,
    fb: ElasticId,
)
    requires
        opt_consistent(prior),
        fa != fb,
        id_unused(prior, fa),
        id_unused(prior, fb),
    ensures
        opt_consistent(commit_spec(b, oid, prior, t, now, fa, fb).0),
{
    match t {
        DualVersionedUpdate::Insert(v, c) => lemma_insert_consistent(b, oid, prior, v, c, now, fa, fb),
        DualVersionedUpdate::Remove => lemma_remove_consistent(b, oid, prior, now, fa, fb),
        DualVersionedUpdate::Activate => lemma_activate_consistent(b, oid, prior, now, fa, fb),
        DualVersionedUpdate::ActivateInsert(v, c) => lemma_activate_insert_consistent(b, oid, prior, v, c, now, fa, fb),
        DualVersionedUpdate::ActivateRemove => lemma_activate_remove_consistent(b, oid, prior, now, fa, fb),
        DualVersionedUpdate::InsertActivate(v) => lemma_insert_activate_consistent(b, oid, prior, v, now, fa, fb),
        DualVersionedUpdate::InsertActivateInsert(bv, av, c) => lemma_insert_activate_insert_consistent(b, oid, prior, bv, av, c, now, fa, fb),
        DualVersionedUpdate::InsertActivateRemove(v) => lemma_insert_activate_remove_consistent(b, oid, prior, v, now, fa, fb),
        DualVersionedUpdate::RemoveActivate => lemma_remove_activate_consistent(b, oid, prior, now, fa, fb),
        DualVersionedUpdate::RemoveActivateInsert(v, c) => lemma_remove_activate_insert_consistent(b, oid, prior, v, c, now, fa, fb),
    }
}

/// A committed current record is never rewritten in place: a new payload
/// closes it at `now`, payload and commit time untouched, and opens a new
/// record under a new id.
pub proof fn lemma_committed_record_is_closed(
    b: Batch,
    oid: ObjectId,
    current: DocModel,
    v: Seq<u8>,
    c: bool,
    now: Timestamp,
    fa: ElasticId,
)
    requires
        fa != current.elastic_id,
    ensures
        ({
            let (o, b2) = commit_insert(b, oid, Some(DualVersionedObj::Created { current, committed: true }), v, c, now, fa);
            let closed = bump(current, current.value.removed(now));
            &&& closed.value.value == current.value.value
            &&& closed.value.version.committed == current.value.version.committed
            &&& closed.value.version.current.to == Some(now)
            &&& o == Some(DualVersionedObj::Created { current: fresh(fa, current.value.updated(now, v, c)), committed: c })
            &&& b2 == put(put(b, wr(oid, closed)), wr(oid, fresh(fa, current.value.updated(now, v, c))))
        }),
{
}

/// The ids of the documents of a state.
pub fn state_ids(obj: &Option<DualVersionedObj<DualVersionedDoc>>) -> (r: (Option<ElasticId>, Option<ElasticId>))
    ensures
        forall|x: ElasticId| r.0 != Some(x) && r.1 != Some(x) ==> id_unused(opt_view(*obj), x),
{
    match obj {
        Some(DualVersionedObj::Created { current, .. }) => (Some(current.elastic_id), None),
        Some(DualVersionedObj::Removed { active }) => (Some(active.elastic_id), None),
        Some(DualVersionedObj::Updated { active, current, .. }) => (Some(active.elastic_id), Some(current.elastic_id)),
        Some(DualVersionedObj::Activated { active }) => (Some(active.elastic_id), None),
        None => (None, None),
    }
}

/// The new state of one object's commit.
pub open spec fn commit_state(oid: ObjectId, prior: Option<ObjModel>, t: DualVersionedUpdate<Seq<u8>>, now: Timestamp, fa: ElasticId, fb: ElasticId) -> Option<ObjModel> {
    commit_spec(Seq::empty(), oid, prior, t, now, fa, fb).0
}

/// The new state of an object's commit does not depend on the batch.
pub proof fn lemma_state_ignores_batch(b: Batch, oid: ObjectId, prior: Option<ObjModel>, t: DualVersionedUpdate<Seq<u8>>, now: Timestamp, fa: ElasticId, fb: ElasticId)
    ensures
        commit_spec(b, oid, prior, t, now, fa, fb).0 == commit_state(oid, prior, t, now, fa, fb),
{
    match t {
        DualVersionedUpdate::Insert(..) => {},
        DualVersionedUpdate::Remove => {},
        DualVersionedUpdate::Activate => {},
        DualVersionedUpdate::ActivateInsert(..) => {},
        DualVersionedUpdate::ActivateRemove => {},
        DualVersionedUpdate::InsertActivate(..) => {},
        DualVersionedUpdate::InsertActivateInsert(..) => {},
        DualVersionedUpdate::InsertActivateRemove(..) => {},
        DualVersionedUpdate::RemoveActivate => {},
        DualVersionedUpdate::RemoveActivateInsert(..) => {},
    }
}

/// The versions of the documents of a state leave room for one more.
pub open spec fn obj_bounded(o: Option<DualVersionedObj<DualVersionedDoc>>) -> bool {
    match o {
        Some(DualVersionedObj::Created { current, .. }) => current.version < u64::MAX,
        Some(DualVersionedObj::Removed { active }) => active.version < u64::MAX,
        Some(DualVersionedObj::Updated { active, current, .. }) => active.version < u64::MAX && current.version < u64::MAX,
        Some(DualVersionedObj::Activated { active }) => active.version < u64::MAX,
        None => true,
    }
}

/// The view of an optional state.
pub open spec fn opt_view(o: Option<DualVersionedObj<DualVersionedDoc>>) -> Option<ObjModel> {
    match o {
        Some(x) => Some(x@),
        None => None,
    }
}

fn commit_insert_exec(
    updates: &mut UpdateGuard<DualVersionedValue>,
    oid: ObjectId,
    obj: Option<DualVersionedObj<DualVersionedDoc>>,
    value: Vec<u8>,
    commit: bool,
    now: Timestamp,
    fa: ElasticId,
) -> (r: Option<DualVersionedObj<DualVersionedDoc>>)
    requires
        old(updates).wf(),
        obj_bounded(obj),
    ensures
        final(updates).wf(),
        (opt_view(r), final(updates)@) == commit_insert(old(updates)@, oid, opt_view(obj), value@, commit, now, fa),
{
    let ghost vv = value@;
    match obj {
        Some(DualVersionedObj::Created { current, committed }) => {
            let ghost cur = current@;
            let n = if committed {
                updates.replace(
                    oid,
                    current,
                    fa,
                    |v: DualVersionedValue| -> (r: DualVersionedValue) ensures r@ == v@.removed(now) { v.remove(now) },
                    move |v: DualVersionedValue| -> (r: DualVersionedValue) ensures r@ == v@.updated(now, vv, commit) { v.update(now, value, commit) },
                )
            } else {
                updates.update(
                    oid,
                    current,
                    move |v: DualVersionedValue| -> (r: DualVersionedValue) ensures r@ == v@.updated_uncommitted(now, vv, commit) { v.update_uncommitted(now, value, commit) },
                )
            };
            Some(DualVersionedObj::created(n, commit))
        },
        Some(DualVersionedObj::Removed { active }) => {
            let n = updates.create(oid, fa, DualVersionedValue::new(now, value, commit));
            Some(DualVersionedObj::updated(active, n, commit))
        },
        Some(DualVersionedObj::Activated { active }) => {
            let (p, n) = updates.split(
                oid,
                active,
                fa,
                |v: DualVersionedValue| -> (r: DualVersionedValue) ensures r@ == v@.removed(now) { v.remove(now) },
                move |v: DualVersionedValue| -> (r: DualVersionedValue) ensures r@ == v@.updated(now, vv, commit) { v.update(now, value, commit) },
            );
            Some(DualVersionedObj::updated(p, n, commit))
        },
        Some(DualVersionedObj::Updated { active, current, committed }) => {
            let n = if committed {
                updates.replace(
                    oid,
                    current,
                    fa,
                    |v: DualVersionedValue| -> (r: DualVersionedValue) ensures r@ == v@.removed(now) { v.remove(now) },
                    move |v: DualVersionedValue| -> (r: DualVersionedValue) ensures r@ == v@.updated(now, vv, commit) { v.update(now, value, commit) },
                )
            } else {
                updates.update(
                    oid,
                    current,
                    move |v: DualVersionedValue| -> (r: DualVersionedValue) ensures r@ == v@.updated_uncommitted(now, vv, commit) { v.update_uncommitted(now, value, commit) },
                )
            };
            Some(DualVersionedObj::updated(active, n, commit))
        },
        None => {
            let n = updates.create(oid, fa, DualVersionedValue::new(now, value, commit));
            Some(DualVersionedObj::created(n, commit))
        },
    }
}

fn commit_remove_exec(
    updates: &mut UpdateGuard<DualVersionedValue>,
    oid: ObjectId,
    obj: Option<DualVersionedObj<DualVersionedDoc>>,
    now: Timestamp,
) -> (r: Option<DualVersionedObj<DualVersionedDoc>>)
    requires
        old(updates).wf(),
        obj_bounded(obj),
    ensures
        final(updates).wf(),
        (opt_view(r), final(updates)@) == commit_remove(old(updates)@, oid, opt_view(obj), now),
{
    match obj {
        Some(DualVersionedObj::Created { current, .. }) => {
            updates.remove(oid, current, move |v: DualVersionedValue| -> (r: DualVersionedValue) ensures r@ == v@.removed(now) { v.remove(now) });
            None
        },
        Some(DualVersionedObj::Updated { active, current, .. }) => {
            updates.remove(oid, current, move |v: DualVersionedValue| -> (r: DualVersionedValue) ensures r@ == v@.removed(now) { v.remove(now) });
            Some(DualVersionedObj::removed(active))
        },
        Some(DualVersionedObj::Activated { active }) => {
            let a = updates.update(oid, active, move |v: DualVersionedValue| -> (r: DualVersionedValue) ensures r@ == v@.removed(now) { v.remove(now) });
            Some(DualVersionedObj::removed(a))
        },
        other => other,
    }
}

fn commit_activate_exec(
    updates: &mut UpdateGuard<DualVersionedValue>,
    oid: ObjectId,
    obj: Option<DualVersionedObj<DualVersionedDoc>>,
    now: Timestamp,
) -> (r: Option<DualVersionedObj<DualVersionedDoc>>)
    requires
        old(updates).wf(),
        obj_bounded(obj),
    ensures
        final(updates).wf(),
        (opt_view(r), final(updates)@) == commit_activate(old(updates)@, oid, opt_view(obj), now),
{
    match obj {
        Some(DualVersionedObj::Created { current, .. }) => {
            let a = updates.update(oid, current, move |v: DualVersionedValue| -> (r: DualVersionedValue) ensures r@ == v@.activated(now, None) { v.activate(now, None) });
            Some(DualVersionedObj::activated(a))
        },
        Some(DualVersionedObj::Updated { active, current, .. }) => {
            let pa = active.value.version.active;
            let n = updates.update(oid, current, move |v: DualVersionedValue| -> (r: DualVersionedValue) ensures r@ == v@.activated(now, pa) { v.activate(now, pa) });
            updates.remove(oid, active, move |v: DualVersionedValue| -> (r: DualVersionedValue) ensures r@ == v@.activate_removed(now) { v.activate_remove(now) });
            Some(DualVersionedObj::activated(n))
        },
        Some(DualVersionedObj::Removed { active }) => {
            updates.remove(oid, active, move |v: DualVersionedValue| -> (r: DualVersionedValue) ensures r@ == v@.activate_removed(now) { v.activate_remove(now) });
            None
        },
        other => other,
    }
}

fn commit_activate_insert_exec(
    updates: &mut UpdateGuard<DualVersionedValue>,
    oid: ObjectId,
    obj: Option<DualVersionedObj<DualVersionedDoc>>,
    value: Vec<u8>,
    commit: bool,
    fa: ElasticId,
    now: Timestamp,
) -> (r: Option<DualVersionedObj<DualVersionedDoc>>)
    requires
        old(updates).wf(),
        obj_bounded(obj),
    ensures
        final(updates).wf(),
        (opt_view(r), final(updates)@) == commit_activate_insert(old(updates)@, oid, opt_view(obj), value@, commit, now, fa),
{
    let ghost vv = value@;
    match obj {
        Some(DualVersionedObj::Created { current, .. }) => {
            let (p, n) = updates.split(oid, current, fa, move |v: DualVersionedValue| -> (r: DualVersionedValue) ensures r@ == v@.activated(now, None).removed(now) { v.activate(now, None).remove(now) }, move |v: DualVersionedValue| -> (r: DualVersionedValue) ensures r@ == v@.updated(now, vv, commit) { v.update(now, value, commit) });
            Some(DualVersionedObj::updated(p, n, commit))
        },
        Some(DualVersionedObj::Updated { active, current, .. }) => {
            let pa = active.value.version.active;
            let (p, n) = updates.split(oid, current, fa, move |v: DualVersionedValue| -> (r: DualVersionedValue) ensures r@ == v@.activated(now, pa).removed(now) { v.activate(now, pa).remove(now) }, move |v: DualVersionedValue| -> (r: DualVersionedValue) ensures r@ == v@.updated(now, vv, commit) { v.update(now, value, commit) });
            updates.remove(oid, active, move |v: DualVersionedValue| -> (r: DualVersionedValue) ensures r@ == v@.activate_removed(now) { v.activate_remove(now) });
            Some(DualVersionedObj::updated(p, n, commit))
        },
        Some(DualVersionedObj::Removed { active }) => {
            let n = updates.replace(oid, active, fa, move |v: DualVersionedValue| -> (r: DualVersionedValue) ensures r@ == v@.activate_removed(now) { v.activate_remove(now) }, move |v: DualVersionedValue| -> (r: DualVersionedValue) ensures r@ == v@.updated(now, vv, commit) { v.update(now, value, commit) });
            Some(DualVersionedObj::created(n, commit))
        },
        Some(DualVersionedObj::Activated { active }) => {
            let (p, n) = updates.split(oid, active, fa, move |v: DualVersionedValue| -> (r: DualVersionedValue) ensures r@ == v@.removed(now) { v.remove(now) }, move |v: DualVersionedValue| -> (r: DualVersionedValue) ensures r@ == v@.updated(now, vv, commit) { v.update(now, value, commit) });
            Some(DualVersionedObj::updated(p, n, commit))
        },
        None => {
            let n = updates.create(oid, fa, DualVersionedValue::new(now, value, commit));
            Some(DualVersionedObj::created(n, commit))
        },
    }
}

fn commit_activate_remove_exec(
    updates: &mut UpdateGuard<DualVersionedValue>,
    oid: ObjectId,
    obj: Option<DualVersionedObj<DualVersionedDoc>>,
    now: Timestamp,
) -> (r: Option<DualVersionedObj<DualVersionedDoc>>)
    requires
        old(updates).wf(),
        obj_bounded(obj),
    ensures
        final(updates).wf(),
        (opt_view(r), final(updates)@) == commit_activate_remove(old(updates)@, oid, opt_view(obj), now),
{
    match obj {
        Some(DualVersionedObj::Created { current, .. }) => {
            let a = updates.update(oid, current, move |v: DualVersionedValue| -> (r: DualVersionedValue) ensures r@ == v@.activated(now, None).removed(now) { v.activate(now, None).remove(now) });
            Some(DualVersionedObj::removed(a))
        },
        Some(DualVersionedObj::Updated { active, current, .. }) => {
            let pa = active.value.version.active;
            let n = updates.update(oid, current, move |v: DualVersionedValue| -> (r: DualVersionedValue) ensures r@ == v@.activated(now, pa).removed(now) { v.activate(now, pa).remove(now) });
            updates.remove(oid, active, move |v: DualVersionedValue| -> (r: DualVersionedValue) ensures r@ == v@.activate_removed(now) { v.activate_remove(now) });
            Some(DualVersionedObj::removed(n))
        },
        Some(DualVersionedObj::Removed { active }) => {
            updates.remove(oid, active, move |v: DualVersionedValue| -> (r: DualVersionedValue) ensures r@ == v@.activate_removed(now) { v.activate_remove(now) });
            None
        },
        Some(DualVersionedObj::Activated { active }) => {
            let a = updates.update(oid, active, move |v: DualVersionedValue| -> (r: DualVersionedValue) ensures r@ == v@.removed(now) { v.remove(now) });
            Some(DualVersionedObj::removed(a))
        },
        None => None,
    }
}

fn commit_insert_activate_exec(
    updates: &mut UpdateGuard<DualVersionedValue>,
    oid: ObjectId,
    obj: Option<DualVersionedObj<DualVersionedDoc>>,
    value: Vec<u8>,
    fa: ElasticId,
    now: Timestamp,
) -> (r: Option<DualVersionedObj<DualVersionedDoc>>)
    requires
        old(updates).wf(),
        obj_bounded(obj),
    ensures
        final(updates).wf(),
        (opt_view(r), final(updates)@) == commit_insert_activate(old(updates)@, oid, opt_view(obj), value@, now, fa),
{
    let ghost vv = value@;
    match obj {
        Some(DualVersionedObj::Created { current, committed }) => {
            let n = if !committed {
                updates.update(oid, current, move |v: DualVersionedValue| -> (r: DualVersionedValue) ensures r@ == v@.updated_uncommitted(now, vv, true).activated(now, None) { v.update_uncommitted(now, value, true).activate(now, None) })
            } else {
                updates.replace(oid, current, fa, move |v: DualVersionedValue| -> (r: DualVersionedValue) ensures r@ == v@.removed(now) { v.remove(now) }, move |v: DualVersionedValue| -> (r: DualVersionedValue) ensures r@ == v@.updated(now, vv, true).activated(now, None) { v.update(now, value, true).activate(now, None) })
            };
            Some(DualVersionedObj::activated(n))
        },
        Some(DualVersionedObj::Updated { active, current, committed }) => {
            let pa = active.value.version.active;
            let n = if !committed {
                updates.update(oid, current, move |v: DualVersionedValue| -> (r: DualVersionedValue) ensures r@ == v@.updated_uncommitted(now, vv, true).activated(now, pa) { v.update_uncommitted(now, value, true).activate(now, pa) })
            } else {
                updates.replace(oid, current, fa, move |v: DualVersionedValue| -> (r: DualVersionedValue) ensures r@ == v@.removed(now) { v.remove(now) }, move |v: DualVersionedValue| -> (r: DualVersionedValue) ensures r@ == v@.updated(now, vv, true).activated(now, pa) { v.update(now, value, true).activate(now, pa) })
            };
            updates.remove(oid, active, move |v: DualVersionedValue| -> (r: DualVersionedValue) ensures r@ == v@.activate_removed(now) { v.activate_remove(now) });
            Some(DualVersionedObj::activated(n))
        },
        Some(DualVersionedObj::Removed { active }) => {
            let pa = active.value.version.active;
            let n = updates.replace(oid, active, fa, move |v: DualVersionedValue| -> (r: DualVersionedValue) ensures r@ == v@.activate_removed(now) { v.activate_remove(now) }, move |v: DualVersionedValue| -> (r: DualVersionedValue) ensures r@ == v@.updated(now, vv, true).activated(now, pa) { v.update(now, value, true).activate(now, pa) });
            Some(DualVersionedObj::activated(n))
        },
        Some(DualVersionedObj::Activated { active }) => {
            let pa = active.value.version.active;
            let n = updates.replace(oid, active, fa, move |v: DualVersionedValue| -> (r: DualVersionedValue) ensures r@ == v@.removed(now).activate_removed(now) { v.remove(now).activate_remove(now) }, move |v: DualVersionedValue| -> (r: DualVersionedValue) ensures r@ == v@.updated(now, vv, true).activated(now, pa) { v.update(now, value, true).activate(now, pa) });
            Some(DualVersionedObj::activated(n))
        },
        None => {
            let n = updates.create(oid, fa, DualVersionedValue::new(now, value, true).activate(now, None));
            Some(DualVersionedObj::activated(n))
        },
    }
}

fn commit_insert_activate_insert_exec(
    updates: &mut UpdateGuard<DualVersionedValue>,
    oid: ObjectId,
    obj: Option<DualVersionedObj<DualVersionedDoc>>,
    before: Vec<u8>,
    after: Vec<u8>,
    commit: bool,
    fa: ElasticId,
    fb: ElasticId,
    now: Timestamp,
) -> (r: Option<DualVersionedObj<DualVersionedDoc>>)
    requires
        old(updates).wf(),
        obj_bounded(obj),
    ensures
        final(updates).wf(),
        (opt_view(r), final(updates)@) == commit_insert_activate_insert(old(updates)@, oid, opt_view(obj), before@, after@, commit, now, fa, fb),
{
    let ghost bv = before@;
    let ghost av = after@;
    match obj {
        Some(DualVersionedObj::Created { current, committed }) => {
            if !committed {
                let (p, n) = updates.split(oid, current, fa, move |v: DualVersionedValue| -> (r: DualVersionedValue) ensures r@ == v@.updated_uncommitted(now, bv, true).activated(now, None).removed(now) { v.update_uncommitted(now, before, true).activate(now, None).remove(now) }, move |v: DualVersionedValue| -> (r: DualVersionedValue) ensures r@ == v@.updated(now, av, commit) { v.update(now, after, commit) });
                Some(DualVersionedObj::updated(p, n, commit))
            } else {
                let c1 = current.value.duplicate();
                let c2 = current.value.duplicate();
                updates.remove(oid, current, move |v: DualVersionedValue| -> (r: DualVersionedValue) ensures r@ == v@.removed(now) { v.remove(now) });
                let a = updates.create(oid, fa, c1.update(now, before, true).activate(now, None).remove(now));
                let n = updates.create(oid, fb, c2.update(now, after, commit));
                Some(DualVersionedObj::updated(a, n, commit))
            }
        },
        Some(DualVersionedObj::Updated { active, current, committed }) => {
            let pa = active.value.version.active;
            updates.remove(oid, active, move |v: DualVersionedValue| -> (r: DualVersionedValue) ensures r@ == v@.activate_removed(now) { v.activate_remove(now) });
            if !committed {
                let (p, n) = updates.split(oid, current, fa, move |v: DualVersionedValue| -> (r: DualVersionedValue) ensures r@ == v@.updated_uncommitted(now, bv, true).activated(now, pa).removed(now) { v.update_uncommitted(now, before, true).activate(now, pa).remove(now) }, move |v: DualVersionedValue| -> (r: DualVersionedValue) ensures r@ == v@.updated(now, av, commit) { v.update(now, after, commit) });
                Some(DualVersionedObj::updated(p, n, commit))
            } else {
                let c1 = current.value.duplicate();
                let c2 = current.value.duplicate();
                updates.remove(oid, current, move |v: DualVersionedValue| -> (r: DualVersionedValue) ensures r@ == v@.removed(now) { v.remove(now) });
                let a = updates.create(oid, fa, c1.update(now, before, true).activate(now, pa).remove(now));
                let n = updates.create(oid, fb, c2.update(now, after, commit));
                Some(DualVersionedObj::updated(a, n, commit))
            }
        },
        Some(DualVersionedObj::Removed { active }) => {
            let pa = active.value.version.active;
            updates.remove(oid, active, move |v: DualVersionedValue| -> (r: DualVersionedValue) ensures r@ == v@.activate_removed(now) { v.activate_remove(now) });
            let a = updates.create(oid, fa, DualVersionedValue::new(now, before, true).activate(now, pa).remove(now));
            let n = updates.create(oid, fb, DualVersionedValue::new(now, after, commit));
            Some(DualVersionedObj::updated(a, n, commit))
        },
        Some(DualVersionedObj::Activated { active }) => {
            let pa = active.value.version.active;
            let c1 = active.value.duplicate();
            let c2 = active.value.duplicate();
            updates.remove(oid, active, move |v: DualVersionedValue| -> (r: DualVersionedValue) ensures r@ == v@.removed(now).activate_removed(now) { v.remove(now).activate_remove(now) });
            let a = updates.create(oid, fa, c1.update(now, before, true).activate(now, pa).remove(now));
            let n = updates.create(oid, fb, c2.update(now, after, commit));
            Some(DualVersionedObj::updated(a, n, commit))
        },
        None => {
            let a = updates.create(oid, fa, DualVersionedValue::new(now, before, true).activate(now, None).remove(now));
            let n = updates.create(oid, fb, DualVersionedValue::new(now, after, commit));
            Some(DualVersionedObj::updated(a, n, commit))
        },
    }
}

fn commit_insert_activate_remove_exec(
    updates: &mut UpdateGuard<DualVersionedValue>,
    oid: ObjectId,
    obj: Option<DualVersionedObj<DualVersionedDoc>>,
    value: Vec<u8>,
    fa: ElasticId,
    now: Timestamp,
) -> (r: Option<DualVersionedObj<DualVersionedDoc>>)
    requires
        old(updates).wf(),
        obj_bounded(obj),
    ensures
        final(updates).wf(),
        (opt_view(r), final(updates)@) == commit_insert_activate_remove(old(updates)@, oid, opt_view(obj), value@, now, fa),
{
    let ghost vv = value@;
    match obj {
        Some(DualVersionedObj::Created { current, committed }) => {
            if !committed {
                let n = updates.update(oid, current, move |v: DualVersionedValue| -> (r: DualVersionedValue) ensures r@ == v@.updated_uncommitted(now, vv, true).activated(now, None).removed(now) { v.update_uncommitted(now, value, true).activate(now, None).remove(now) });
                Some(DualVersionedObj::removed(n))
            } else {
                let c1 = current.value.duplicate();
                updates.remove(oid, current, move |v: DualVersionedValue| -> (r: DualVersionedValue) ensures r@ == v@.removed(now) { v.remove(now) });
                let a = updates.create(oid, fa, c1.update(now, value, true).activate(now, None).remove(now));
                Some(DualVersionedObj::removed(a))
            }
        },
        Some(DualVersionedObj::Updated { active, current, committed }) => {
            let pa = active.value.version.active;
            updates.remove(oid, active, move |v: DualVersionedValue| -> (r: DualVersionedValue) ensures r@ == v@.activate_removed(now) { v.activate_remove(now) });
            if !committed {
                let n = updates.update(oid, current, move |v: DualVersionedValue| -> (r: DualVersionedValue) ensures r@ == v@.updated_uncommitted(now, vv, true).activated(now, pa).removed(now) { v.update_uncommitted(now, value, true).activate(now, pa).remove(now) });
                Some(DualVersionedObj::removed(n))
            } else {
                let c1 = current.value.duplicate();
                updates.remove(oid, current, move |v: DualVersionedValue| -> (r: DualVersionedValue) ensures r@ == v@.removed(now) { v.remove(now) });
                let a = updates.create(oid, fa, c1.update(now, value, true).activate(now, pa).remove(now));
                Some(DualVersionedObj::removed(a))
            }
        },
        Some(DualVersionedObj::Removed { active }) => {
            let pa = active.value.version.active;
            updates.remove(oid, active, move |v: DualVersionedValue| -> (r: DualVersionedValue) ensures r@ == v@.activate_removed(now) { v.activate_remove(now) });
            let a = updates.create(oid, fa, DualVersionedValue::new(now, value, true).activate(now, pa).remove(now));
            Some(DualVersionedObj::removed(a))
        },
        Some(DualVersionedObj::Activated { active }) => {
            let pa = active.value.version.active;
            let c1 = active.value.duplicate();
            updates.remove(oid, active, move |v: DualVersionedValue| -> (r: DualVersionedValue) ensures r@ == v@.removed(now).activate_removed(now) { v.remove(now).activate_remove(now) });
            let a = updates.create(oid, fa, c1.update(now, value, true).activate(now, pa).remove(now));
            Some(DualVersionedObj::removed(a))
        },
        None => {
            let a = updates.create(oid, fa, DualVersionedValue::new(now, value, true).activate(now, None).remove(now));
            Some(DualVersionedObj::removed(a))
        },
    }
}

fn commit_remove_activate_exec(
    updates: &mut UpdateGuard<DualVersionedValue>,
    oid: ObjectId,
    obj: Option<DualVersionedObj<DualVersionedDoc>>,
    now: Timestamp,
) -> (r: Option<DualVersionedObj<DualVersionedDoc>>)
    requires
        old(updates).wf(),
        obj_bounded(obj),
    ensures
        final(updates).wf(),
        (opt_view(r), final(updates)@) == commit_remove_activate(old(updates)@, oid, opt_view(obj), now),
{
    match obj {
        Some(DualVersionedObj::Created { current, .. }) => {
            updates.remove(oid, current, move |v: DualVersionedValue| -> (r: DualVersionedValue) ensures r@ == v@.removed(now) { v.remove(now) });
            None
        },
        Some(DualVersionedObj::Updated { active, current, .. }) => {
            updates.remove(oid, active, move |v: DualVersionedValue| -> (r: DualVersionedValue) ensures r@ == v@.activate_removed(now) { v.activate_remove(now) });
            updates.remove(oid, current, move |v: DualVersionedValue| -> (r: DualVersionedValue) ensures r@ == v@.removed(now) { v.remove(now) });
            None
        },
        Some(DualVersionedObj::Removed { active }) => {
            updates.remove(oid, active, move |v: DualVersionedValue| -> (r: DualVersionedValue) ensures r@ == v@.activate_removed(now) { v.activate_remove(now) });
            None
        },
        Some(DualVersionedObj::Activated { active }) => {
            updates.remove(oid, active, move |v: DualVersionedValue| -> (r: DualVersionedValue) ensures r@ == v@.removed(now).activate_removed(now) { v.remove(now).activate_remove(now) });
            None
        },
        None => None,
    }
}

fn commit_remove_activate_insert_exec(
    updates: &mut UpdateGuard<DualVersionedValue>,
    oid: ObjectId,
    obj: Option<DualVersionedObj<DualVersionedDoc>>,
    value: Vec<u8>,
    commit: bool,
    fa: ElasticId,
    now: Timestamp,
) -> (r: Option<DualVersionedObj<DualVersionedDoc>>)
    requires
        old(updates).wf(),
        obj_bounded(obj),
    ensures
        final(updates).wf(),
        (opt_view(r), final(updates)@) == commit_remove_activate_insert(old(updates)@, oid, opt_view(obj), value@, commit, now, fa),
{
    match obj {
        Some(DualVersionedObj::Created { current, .. }) => {
            updates.remove(oid, current, move |v: DualVersionedValue| -> (r: DualVersionedValue) ensures r@ == v@.removed(now) { v.remove(now) });
        },
        Some(DualVersionedObj::Updated { active, current, .. }) => {
            let pa = active.value.version.active;
            updates.remove(oid, current, move |v: DualVersionedValue| -> (r: DualVersionedValue) ensures r@ == v@.activated(now, pa).removed(now).activate_removed(now) { v.activate(now, pa).remove(now).activate_remove(now) });
            updates.remove(oid, active, move |v: DualVersionedValue| -> (r: DualVersionedValue) ensures r@ == v@.activate_removed(now) { v.activate_remove(now) });
        },
        Some(DualVersionedObj::Removed { active }) => {
            updates.remove(oid, active, move |v: DualVersionedValue| -> (r: DualVersionedValue) ensures r@ == v@.activate_removed(now) { v.activate_remove(now) });
        },
        Some(DualVersionedObj::Activated { active }) => {
            updates.remove(oid, active, move |v: DualVersionedValue| -> (r: DualVersionedValue) ensures r@ == v@.removed(now).activate_removed(now) { v.remove(now).activate_remove(now) });
        },
        None => {},
    }
    let n = updates.create(oid, fa, DualVersionedValue::new(now, value, commit));
    Some(DualVersionedObj::created(n, commit))
}

/// Commits the token `update` of object `oid` over its stored state `obj`:
/// adds the writes to `updates` and returns the new state. New documents get
/// the ids `fa` and `fb`, in that order.
pub fn commit_object(
    updates: &mut UpdateGuard<DualVersionedValue>,
    oid: ObjectId,
    obj: Option<DualVersionedObj<DualVersionedDoc>>,
    update: DualVersionedUpdate<Vec<u8>>,
    now: Timestamp,
    fa: ElasticId,
    fb: ElasticId,
) -> (r: Option<DualVersionedObj<DualVersionedDoc>>)
    requires
        old(updates).wf(),
        obj_bounded(obj),
    ensures
        final(updates).wf(),
        (opt_view(r), final(updates)@) == commit_spec(old(updates)@, oid, opt_view(obj), update@, now, fa, fb),
{
    match update {
        DualVersionedUpdate::Insert(v, c) => commit_insert_exec(updates, oid, obj, v, c, now, fa),
        DualVersionedUpdate::Remove => commit_remove_exec(updates, oid, obj, now),
        DualVersionedUpdate::Activate => commit_activate_exec(updates, oid, obj, now),
        DualVersionedUpdate::ActivateInsert(v, c) => commit_activate_insert_exec(updates, oid, obj, v, c, fa, now),
        DualVersionedUpdate::ActivateRemove => commit_activate_remove_exec(updates, oid, obj, now),
        DualVersionedUpdate::InsertActivate(v) => commit_insert_activate_exec(updates, oid, obj, v, fa, now),
        DualVersionedUpdate::InsertActivateInsert(b, a, c) => commit_insert_activate_insert_exec(updates, oid, obj, b, a, c, fa, fb, now),
        DualVersionedUpdate::InsertActivateRemove(v) => commit_insert_activate_remove_exec(updates, oid, obj, v, fa, now),
        DualVersionedUpdate::RemoveActivate => commit_remove_activate_exec(updates, oid, obj, now),
        DualVersionedUpdate::RemoveActivateInsert(v, c) => commit_remove_activate_insert_exec(updates, oid, obj, v, c, fa, now),
    }
}

} // verus!
