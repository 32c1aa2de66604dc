//! The store contract as the engine relies on it: external versioning makes
//! a batch of writes safe to apply again.
use vstd::prelude::*;

use crate::elastic::{bulk_outcome, status_ok};
use crate::ids::{ElasticId, ObjectId};
use crate::updates::WriteView;

verus! {

/// The documents of a store: version, object and record of each document id.
pub type StoreModel<V> = Map<ElasticId, (u64, ObjectId, V)>;

/// The store after one write, and the status it answers: the write is taken
/// (200) where the document is absent or stored at an older version, and
/// refused as a version conflict (409) otherwise.
pub open spec fn store_write<V>(s: StoreModel<V>, w: WriteView<V>) -> (StoreModel<V>, u64) {
    if s.contains_key(w.0) && s[w.0].0 >= w.1 {
        (s, 409)
    } else {
        (s.insert(w.0, (w.1, w.2, w.3)), 200)
    }
}

/// The store after the writes `ws` in order, and the status of each.
pub open spec fn store_writes<V>(s: StoreModel<V>, ws: Seq<WriteView<V>>) -> (StoreModel<V>, Seq<u64>)
    decreases ws.len(),
{
    if ws.len() == 0 {
        (s, Seq::empty())
    } else {
        let (s1, st) = store_writes(s, ws.drop_last());
        let (s2, c) = store_write(s1, ws.last());
        (s2, st.push(c))
    }
}

/// The store holds document `w.0` at the version of `w` or a newer one.
pub open spec fn covers<V>(s: StoreModel<V>, w: WriteView<V>) -> bool {
    s.contains_key(w.0) && s[w.0].0 >= w.1
}

proof fn lemma_writes_cover<V>(s: StoreModel<V>, ws: Seq<WriteView<V>>)
    ensures
        forall|k: ElasticId| #[trigger] s.contains_key(k) ==> store_writes(s, ws).0.contains_key(k)
            && store_writes(s, ws).0[k].0 >= s[k].0,
        forall|i: int| 0 <= i < ws.len() ==> covers(store_writes(s, ws).0, #[trigger] ws[i]),
        store_writes(s, ws).1.len() == ws.len(),
    decreases ws.len(),
{
    if ws.len() > 0 {
        let init = ws.drop_last();
        lemma_writes_cover(s, init);
        let t = store_writes(s, init).0;
        let u = store_writes(s, ws).0;
        assert(u == store_write(t, ws.last()).0);
        assert forall|i: int| 0 <= i < ws.len() implies covers(u, #[trigger] ws[i]) by {
            if i < ws.len() - 1 {
                assert(ws[i] == init[i]);
                assert(covers(t, init[i]));
            }
        }
    }
}

proof fn lemma_covered_writes_change_nothing<V>(t: StoreModel<V>, ws: Seq<WriteView<V>>)
    requires
        forall|i: int| 0 <= i < ws.len() ==> covers(t, #[trigger] ws[i]),
    ensures
        store_writes(t, ws).0 == t,
        store_writes(t, ws).1 == Seq::new(ws.len(), |i: int| 409u64),
    decreases ws.len(),
{
    if ws.len() > 0 {
        let init = ws.drop_last();
        assert forall|i: int| 0 <= i < init.len() implies covers(t, #[trigger] init[i]) by {
            assert(init[i] == ws[i]);
        }
        lemma_covered_writes_change_nothing(t, init);
        assert(covers(t, ws[ws.len() - 1]));
        assert(store_writes(t, ws).1 =~= Seq::new(ws.len(), |i: int| 409u64));
    }
}

/// Applying the same batch of writes a second time leaves the store as the
/// first application left it; every write of the second one answers a
/// version conflict, and a bulk request answered so counts as a success.
pub proof fn lemma_replay_is_idempotent<V>(s: StoreModel<V>, ws: Seq<WriteView<V>>)
    ensures
        store_writes(store_writes(s, ws).0, ws).0 == store_writes(s, ws).0,
        forall|i: int| 0 <= i < ws.len() ==> #[trigger] store_writes(store_writes(s, ws).0, ws).1[i] == 409,
        bulk_outcome(store_writes(store_writes(s, ws).0, ws).1) == Ok::<(), crate::elastic::BulkError>(()),
{
    lemma_writes_cover(s, ws);
    let t = store_writes(s, ws).0;
    lemma_covered_writes_change_nothing(t, ws);
    let st = store_writes(t, ws).1;
    assert forall|i: int| 0 <= i < st.len() implies status_ok(#[trigger] st[i]) by {
        assert(st[i] == 409);
    }
}

} // verus!
