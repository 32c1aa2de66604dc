use dbdaemon::dual_versioned_data::{DualVersionedData, DualVersionedObj, DualVersionedTransaction, DualVersionedUpdate, Timeline};
use dbdaemon::error::Error;
use dbdaemon::ids::{ElasticId, ObjectId};
use dbdaemon::table_data::Identified;
use dbdaemon::updates::Write;
use dbdaemon::versioned::{Anchor, DualVersionInfo, DualVersionedValue};
use std::collections::HashMap;

const T0: i64 = 1_000;
const T1: i64 = 2_000;
const T2: i64 = 3_000;
const T3: i64 = 4_000;

type Store = HashMap<u128, (u64, DualVersionInfo, Vec<u8>)>;

fn apply(store: &mut Store, writes: Vec<Write<DualVersionedValue>>) {
    for (id, version, doc) in writes {
        if let Some((v, _, _)) = store.get(&id.id) {
            if *v >= version {
                continue;
            }
        }
        store.insert(id.id, (version, doc.value.version, doc.value.value));
    }
}

fn kind(data: &DualVersionedData, oid: &ObjectId) -> &'static str {
    match data.get_state(oid) {
        Some(DualVersionedObj::Created { .. }) => "created",
        Some(DualVersionedObj::Removed { .. }) => "removed",
        Some(DualVersionedObj::Updated { .. }) => "updated",
        Some(DualVersionedObj::Activated { .. }) => "activated",
        None => "none",
    }
}

fn anchor(created: i64, from: i64, to: Option<i64>) -> Anchor {
    Anchor { created, from, to }
}

/// Create at T0, activate at T1, update at T2, activate at T3, checking the
/// writes and states on the way.
#[test]
fn dual_create_activate_update_activate() {
    let mut store = Store::new();
    let oid = ObjectId::from_u128(42);

    // Create, committed.
    let mut tx = DualVersionedTransaction::new(DualVersionedData::new());
    assert!(tx.create(oid, b"{\"k\":1}".to_vec(), true));
    let (data, batch) = tx.commit(T0);
    let writes = batch.extract();
    assert_eq!(writes.len(), 1);
    let first_id = writes[0].0;
    apply(&mut store, writes);
    assert_eq!(kind(&data, &oid), "created");
    assert_eq!(
        store[&first_id.id].1,
        DualVersionInfo { current: anchor(T0, T0, None), committed: Some(T0), active: None }
    );

    // Activate.
    let mut tx = DualVersionedTransaction::new(data);
    assert!(tx.activate(oid));
    let (data, batch) = tx.commit(T1);
    assert_eq!(batch.len(), 1);
    apply(&mut store, batch.extract());
    assert_eq!(kind(&data, &oid), "activated");
    assert_eq!(store.len(), 1);
    assert_eq!(
        store[&first_id.id].1,
        DualVersionInfo {
            current: anchor(T0, T0, None),
            committed: Some(T0),
            active: Some(anchor(T1, T1, None)),
        }
    );

    // Update after activate: the active record is closed on current only.
    let mut tx = DualVersionedTransaction::new(data);
    assert!(tx.update(oid, b"{\"k\":2}".to_vec(), true));
    let (data, batch) = tx.commit(T2);
    let writes = batch.extract();
    assert_eq!(writes.len(), 2);
    let second_id = writes.iter().map(|w| w.0).find(|id| *id != first_id).unwrap();
    apply(&mut store, writes);
    assert_eq!(kind(&data, &oid), "updated");
    assert_eq!(
        store[&first_id.id].1,
        DualVersionInfo {
            current: anchor(T0, T0, Some(T2)),
            committed: Some(T0),
            active: Some(anchor(T1, T1, None)),
        }
    );
    assert_eq!(store[&second_id.id].1.current, anchor(T0, T2, None));
    assert_eq!(store[&second_id.id].1.active, None);
    assert_eq!(store[&second_id.id].2, b"{\"k\":2}".to_vec());
    assert_eq!(data.get(&oid, Timeline::Active).unwrap().value, b"{\"k\":1}".to_vec());
    assert_eq!(data.get(&oid, Timeline::Current).unwrap().value, b"{\"k\":2}".to_vec());

    // Activate after divergence: the active chain keeps its creation time.
    let mut tx = DualVersionedTransaction::new(data);
    assert!(tx.activate(oid));
    let (data, batch) = tx.commit(T3);
    assert_eq!(batch.len(), 2);
    apply(&mut store, batch.extract());
    assert_eq!(kind(&data, &oid), "activated");
    assert_eq!(store[&first_id.id].1.active, Some(anchor(T1, T1, Some(T3))));
    assert_eq!(store[&second_id.id].1.active, Some(anchor(T1, T3, None)));
    assert_eq!(store[&second_id.id].1.current, anchor(T0, T2, None));
}

#[test]
fn dual_uncommitted_edits_coalesce() {
    let mut store = Store::new();
    let oid = ObjectId::from_u128(3);
    let mut tx = DualVersionedTransaction::new(DualVersionedData::new());
    tx.insert(oid, b"v1".to_vec(), false);
    tx.insert(oid, b"v2".to_vec(), false);
    let (data, batch) = tx.commit(T0);
    let writes = batch.extract();
    assert_eq!(writes.len(), 1);
    let id = writes[0].0;
    apply(&mut store, writes);
    assert_eq!(store[&id.id].2, b"v2".to_vec());
    assert_eq!(store[&id.id].1.committed, None);

    let mut tx = DualVersionedTransaction::new(data);
    tx.insert(oid, b"v3".to_vec(), true);
    let (_, batch) = tx.commit(T1);
    let writes = batch.extract();
    assert_eq!(writes.len(), 1);
    assert_eq!(writes[0].0, id);
    assert_eq!(writes[0].1, 1);
    apply(&mut store, writes);
    assert_eq!(store.len(), 1);
    assert_eq!(store[&id.id].2, b"v3".to_vec());
    assert_eq!(store[&id.id].1.committed, Some(T1));
    assert_eq!(store[&id.id].1.current, anchor(T0, T0, None));
}

#[test]
fn dual_committed_record_is_never_mutated_in_place() {
    let oid = ObjectId::from_u128(4);
    let mut tx = DualVersionedTransaction::new(DualVersionedData::new());
    tx.insert(oid, b"a".to_vec(), true);
    let (data, batch) = tx.commit(T0);
    let first = batch.extract()[0].0;
    let mut tx = DualVersionedTransaction::new(data);
    tx.insert(oid, b"b".to_vec(), false);
    let (_, batch) = tx.commit(T1);
    let writes = batch.extract();
    assert_eq!(writes.len(), 2);
    let old = writes.iter().find(|w| w.0 == first).unwrap();
    assert_eq!(old.2.value.value, b"a".to_vec());
    assert_eq!(old.2.value.version.current.to, Some(T1));
}

#[test]
fn transaction_insert() {
    let oid = ObjectId::new();
    let mut tx = DualVersionedTransaction::new(DualVersionedData::new());
    tx.insert(oid, b"{\"field\":\"test\"}".to_vec(), true);
    let (_, batch) = tx.commit(T0);
    let writes = batch.extract();
    assert_eq!(writes.len(), 1);
    assert_eq!(writes[0].1, 0);
    assert_eq!(writes[0].2.object_id, oid);
    assert_eq!(
        writes[0].2.value.version,
        DualVersionInfo { current: anchor(T0, T0, None), committed: Some(T0), active: None }
    );
}

#[test]
fn dual_edit_rules() {
    let oid = ObjectId::from_u128(9);
    let mut tx = DualVersionedTransaction::new(DualVersionedData::new());
    assert!(!tx.update(oid, b"x".to_vec(), true));
    assert!(!tx.remove(oid));
    assert!(!tx.activate(oid));
    assert!(tx.create(oid, b"x".to_vec(), true));
    assert!(!tx.create(oid, b"y".to_vec(), true));
    assert_eq!(tx.get_current(&oid).unwrap(), &b"x".to_vec());
    assert!(tx.get_active(&oid).is_none());
    assert!(tx.activate(oid));
    assert_eq!(tx.get_active(&oid).unwrap(), &b"x".to_vec());
    assert!(tx.remove(oid));
    assert!(tx.get_current(&oid).is_none());
    assert_eq!(tx.get_active(&oid).unwrap(), &b"x".to_vec());
    let (data, batch) = tx.commit(T0);
    assert_eq!(kind(&data, &oid), "removed");
    let writes = batch.extract();
    assert_eq!(writes.len(), 1);
    assert_eq!(writes[0].2.value.version.current, anchor(T0, T0, Some(T0)));
    assert_eq!(writes[0].2.value.version.active, Some(anchor(T0, T0, None)));
}

#[test]
fn token_rewrites() {
    let t: DualVersionedUpdate<u8> = DualVersionedUpdate::Insert(1, true);
    let t = t.activated();
    assert!(matches!(t, DualVersionedUpdate::InsertActivate(1)));
    let t = t.inserted(2, false);
    assert!(matches!(t, DualVersionedUpdate::InsertActivateInsert(1, 2, false)));
    let t = t.removed();
    assert!(matches!(t, DualVersionedUpdate::InsertActivateRemove(1)));
    let t = t.activated();
    assert!(matches!(t, DualVersionedUpdate::RemoveActivate));
    let t = t.inserted(3, true);
    assert!(matches!(t, DualVersionedUpdate::RemoveActivateInsert(3, true)));
    let mut u: DualVersionedUpdate<u8> = DualVersionedUpdate::Activate;
    u.remove();
    assert!(matches!(u, DualVersionedUpdate::ActivateRemove));
    u.insert(5, true);
    assert!(matches!(u, DualVersionedUpdate::ActivateInsert(5, true)));
}

fn record(current: Anchor, active: Option<Anchor>) -> DualVersionedValue {
    DualVersionedValue {
        version: DualVersionInfo { current, committed: Some(T0), active },
        value: b"p".to_vec(),
    }
}

#[test]
fn dual_load_folds_and_rejects() {
    let oid = ObjectId::from_u128(1);
    let docs: Vec<Write<DualVersionedValue>> = vec![
        (ElasticId::from_u128(1), 2, Identified { object_id: oid, value: record(anchor(T0, T0, Some(T2)), Some(anchor(T1, T1, None))) }),
        (ElasticId::from_u128(2), 0, Identified { object_id: oid, value: record(anchor(T0, T2, None), None) }),
    ];
    let data = DualVersionedData::load(&"t".to_string(), docs).ok().unwrap();
    assert_eq!(kind(&data, &oid), "updated");

    let closed: Vec<Write<DualVersionedValue>> = vec![(
        ElasticId::from_u128(3),
        0,
        Identified { object_id: oid, value: record(anchor(T0, T0, Some(T1)), None) },
    )];
    match DualVersionedData::load(&"t".to_string(), closed) {
        Err(Error::InconsistentData(t, id)) => {
            assert_eq!(t, "t");
            assert_eq!(id, ElasticId::from_u128(3));
        }
        _ => panic!("expected inconsistent data"),
    }

    let two_current: Vec<Write<DualVersionedValue>> = vec![
        (ElasticId::from_u128(4), 0, Identified { object_id: oid, value: record(anchor(T0, T0, None), None) }),
        (ElasticId::from_u128(5), 0, Identified { object_id: oid, value: record(anchor(T0, T1, None), None) }),
    ];
    match DualVersionedData::load(&"t".to_string(), two_current) {
        Err(Error::InconsistentData(_, id)) => assert_eq!(id, ElasticId::from_u128(5)),
        _ => panic!("expected inconsistent data"),
    }
}

/// The live records of the store, as a reload reads them.
fn live_writes(store: &Store, oid: ObjectId) -> Vec<Write<DualVersionedValue>> {
    let mut ids: Vec<&u128> = store.keys().collect();
    ids.sort();
    ids.into_iter()
        .filter_map(|id| {
            let (version, info, value) = &store[id];
            let live = info.current.to.is_none() || info.active.map_or(false, |a| a.to.is_none());
            if !live {
                return None;
            }
            Some((
                ElasticId::from_u128(*id),
                *version,
                Identified { object_id: oid, value: DualVersionedValue { version: *info, value: value.clone() } },
            ))
        })
        .collect()
}

/// Every sequence of up to three edits per transaction, over three
/// transactions, leaves a store whose live records reload into the state the
/// engine holds.
#[test]
fn dual_commits_reload_into_the_same_state() {
    let edits = ["insert", "draft", "remove", "activate"];
    let mut sequences: Vec<Vec<&str>> = vec![vec![]];
    for _ in 0..2 {
        let mut next = Vec::new();
        for s in &sequences {
            for e in edits {
                let mut t = s.clone();
                t.push(e);
                next.push(t);
            }
        }
        sequences.extend(next);
    }
    sequences.sort();
    sequences.dedup();
    let oid = ObjectId::from_u128(77);
    for first in &sequences {
        for second in &sequences {
            let mut store = Store::new();
            let mut data = DualVersionedData::new();
            for (round, seq) in [first, second, first].iter().enumerate() {
                let mut tx = DualVersionedTransaction::new(data);
                for (k, e) in seq.iter().enumerate() {
                    let payload = format!("{round}-{k}").into_bytes();
                    match *e {
                        "insert" => tx.insert(oid, payload, true),
                        "draft" => tx.insert(oid, payload, false),
                        "remove" => {
                            tx.remove(oid);
                        }
                        _ => {
                            tx.activate(oid);
                        }
                    }
                }
                let now = T0 + 1000 * round as i64;
                let (next, batch) = tx.commit(now);
                apply(&mut store, batch.extract());
                let reloaded = DualVersionedData::load(&"t".to_string(), live_writes(&store, oid))
                    .ok()
                    .unwrap_or_else(|| panic!("inconsistent store after {first:?} / {second:?}"));
                assert_eq!(kind(&reloaded, &oid), kind(&next, &oid), "{first:?} / {second:?}");
                for timeline in [Timeline::Current, Timeline::Active] {
                    assert_eq!(
                        reloaded.get(&oid, timeline).map(|v| v.value.clone()),
                        next.get(&oid, timeline).map(|v| v.value.clone()),
                        "{first:?} / {second:?}"
                    );
                }
                data = next;
            }
        }
    }
}
