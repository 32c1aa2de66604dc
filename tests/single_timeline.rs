use dbdaemon::error::Error;
use dbdaemon::ids::{ElasticId, ObjectId};
use dbdaemon::operation::Operation;
use dbdaemon::single_versioned_data::{payload_eq, SingleVersionedData, SingleVersionedTransaction};
use dbdaemon::table_data::Identified;
use dbdaemon::updates::Write;
use dbdaemon::versioned::{Anchor, SingleVersionedValue};
use std::collections::HashMap;

const T0: i64 = 1_000;
const T1: i64 = 2_000;
const T2: i64 = 3_000;

type Store = HashMap<u128, (u64, ObjectId, Anchor, Vec<u8>)>;

/// Applies writes as the store does under external versioning: a write is
/// taken only where its version is newer than the stored one.
fn apply(store: &mut Store, writes: Vec<Write<SingleVersionedValue>>) -> usize {
    let mut conflicts = 0;
    for (id, version, doc) in writes {
        if let Some((v, _, _, _)) = store.get(&id.id) {
            if *v >= version {
                conflicts += 1;
                continue;
            }
        }
        store.insert(id.id, (version, doc.object_id, doc.value.version, doc.value.value));
    }
    conflicts
}

fn records(store: &Store, oid: ObjectId) -> Vec<(Anchor, Vec<u8>)> {
    let mut r: Vec<(Anchor, Vec<u8>)> = store
        .values()
        .filter(|(_, o, _, _)| *o == oid)
        .map(|(_, _, a, v)| (*a, v.clone()))
        .collect();
    r.sort_by_key(|(a, _)| a.from);
    r
}

fn open(from: i64, to: Option<i64>) -> Anchor {
    Anchor { created: T0, from, to }
}

#[test]
fn single_create_update_remove() {
    let mut store = Store::new();
    let oid = ObjectId::from_u128(7);

    let mut tx = SingleVersionedTransaction::new(SingleVersionedData::new());
    assert!(tx.create(&oid, b"{\"a\":1}".to_vec()));
    let (data, batch) = tx.commit(T0, false);
    apply(&mut store, batch.extract());
    assert_eq!(records(&store, oid), vec![(open(T0, None), b"{\"a\":1}".to_vec())]);

    let mut tx = SingleVersionedTransaction::new(data);
    assert!(tx.update(&oid, b"{\"a\":2}".to_vec()));
    let (data, batch) = tx.commit(T1, false);
    assert_eq!(batch.len(), 2);
    apply(&mut store, batch.extract());
    assert_eq!(
        records(&store, oid),
        vec![
            (open(T0, Some(T1)), b"{\"a\":1}".to_vec()),
            (open(T1, None), b"{\"a\":2}".to_vec()),
        ]
    );

    let mut tx = SingleVersionedTransaction::new(data);
    assert!(tx.remove(&oid));
    let (data, batch) = tx.commit(T2, false);
    assert_eq!(batch.len(), 1);
    apply(&mut store, batch.extract());
    assert_eq!(
        records(&store, oid),
        vec![
            (open(T0, Some(T1)), b"{\"a\":1}".to_vec()),
            (open(T1, Some(T2)), b"{\"a\":2}".to_vec()),
        ]
    );
    assert!(data.get(&oid).is_none());
}

#[test]
fn single_unchanged_payload_writes_nothing() {
    let oid = ObjectId::from_u128(1);
    let mut tx = SingleVersionedTransaction::new(SingleVersionedData::new());
    tx.insert(&oid, b"{\"x\":true}".to_vec());
    let (data, _) = tx.commit(T0, false);

    let mut tx = SingleVersionedTransaction::new(data);
    assert!(tx.update(&oid, b"{\"x\":true}".to_vec()));
    let (data, batch) = tx.commit(T1, false);
    assert_eq!(batch.len(), 0);

    let mut tx = SingleVersionedTransaction::new(data);
    assert!(tx.update(&oid, b"{\"x\":true}".to_vec()));
    let (_, batch) = tx.commit(T2, true);
    assert_eq!(batch.len(), 2);
}

#[test]
fn single_noop_transaction_writes_nothing() {
    let docs: Vec<Write<SingleVersionedValue>> = vec![(
        ElasticId::from_u128(10),
        3,
        Identified { object_id: ObjectId::from_u128(1), value: SingleVersionedValue::new(T0, b"1".to_vec()) },
    )];
    let data = SingleVersionedData::load(docs);
    let tx = SingleVersionedTransaction::new(data);
    let (data, batch) = tx.commit(T1, false);
    assert_eq!(batch.len(), 0);
    assert_eq!(data.get(&ObjectId::from_u128(1)).unwrap().value, b"1".to_vec());
}

#[test]
fn single_edit_rules() {
    let a = ObjectId::from_u128(1);
    let b = ObjectId::from_u128(2);
    let mut tx = SingleVersionedTransaction::new(SingleVersionedData::new());
    assert!(!tx.update(&a, b"1".to_vec()));
    assert!(!tx.remove(&a));
    assert!(tx.create(&a, b"1".to_vec()));
    assert!(!tx.create(&a, b"2".to_vec()));
    assert!(tx.update(&a, b"3".to_vec()));
    assert!(tx.remove(&a));
    assert!(!tx.remove(&a));
    tx.insert(&b, b"4".to_vec());
    let (data, batch) = tx.commit(T0, false);
    assert!(data.get(&a).is_none());
    assert_eq!(data.get(&b).unwrap().value, b"4".to_vec());
    assert_eq!(batch.len(), 1);
    assert_eq!(data.object_ids(), vec![b]);
}

#[test]
fn single_load_keeps_last_record_of_each_object() {
    let oid = ObjectId::from_u128(5);
    let docs: Vec<Write<SingleVersionedValue>> = vec![
        (ElasticId::from_u128(1), 0, Identified { object_id: oid, value: SingleVersionedValue::new(T0, b"a".to_vec()) }),
        (ElasticId::from_u128(2), 0, Identified { object_id: oid, value: SingleVersionedValue::new(T1, b"b".to_vec()) }),
    ];
    let data = SingleVersionedData::load(docs);
    assert_eq!(data.get(&oid).unwrap().value, b"b".to_vec());
    assert!(data.check_bounded());
}

#[test]
fn payload_comparison() {
    assert!(payload_eq(&b"abc".to_vec(), &b"abc".to_vec()));
    assert!(!payload_eq(&b"abc".to_vec(), &b"abd".to_vec()));
    assert!(!payload_eq(&b"abc".to_vec(), &b"ab".to_vec()));
}

#[test]
fn single_replayed_batch_changes_nothing() {
    let mut store = Store::new();
    let oid = ObjectId::from_u128(8);
    let mut tx = SingleVersionedTransaction::new(SingleVersionedData::new());
    tx.insert(&oid, b"1".to_vec());
    let (data, batch) = tx.commit(T0, false);
    apply(&mut store, batch.extract());
    let mut tx = SingleVersionedTransaction::new(data);
    tx.insert(&oid, b"2".to_vec());
    let (_, batch) = tx.commit(T1, false);
    let writes = batch.extract();
    let replay: Vec<Write<SingleVersionedValue>> = writes
        .iter()
        .map(|(id, v, doc)| (*id, *v, Identified { object_id: doc.object_id, value: doc.value.clone() }))
        .collect();
    assert_eq!(apply(&mut store, writes), 0);
    let after_first = records(&store, oid);
    assert_eq!(apply(&mut store, replay), 2);
    assert_eq!(records(&store, oid), after_first);
}

#[test]
fn single_bulk_operations() {
    let a = ObjectId::from_u128(1);
    let b = ObjectId::from_u128(2);
    let t = "t".to_string();
    let mut tx = SingleVersionedTransaction::new(SingleVersionedData::new());
    let ops = vec![
        (a, Operation::Create(b"1".to_vec())),
        (b, Operation::CreateOrUpdate(b"2".to_vec())),
        (a, Operation::Update(b"3".to_vec())),
    ];
    assert!(tx.apply_operations(&t, ops).is_ok());
    match tx.apply_operations(&t, vec![(a, Operation::Create(b"4".to_vec()))]) {
        Err(Error::ObjectIdAlreadyExists(table, id)) => {
            assert_eq!(table, "t");
            assert_eq!(id, a);
        }
        _ => panic!("expected an existing object"),
    }
    let c = ObjectId::from_u128(3);
    match tx.apply_operations(&t, vec![(b, Operation::Remove), (c, Operation::Remove)]) {
        Err(Error::ObjectDoesNotExist(_, id)) => assert_eq!(id, c),
        _ => panic!("expected a missing object"),
    }
    let (data, batch) = tx.commit(T0, false);
    assert_eq!(batch.len(), 1);
    assert_eq!(data.get(&a).unwrap().value, b"3".to_vec());
    assert!(data.get(&b).is_none());
}

#[test]
fn single_aborted_transaction_keeps_state() {
    let a = ObjectId::from_u128(1);
    let mut tx = SingleVersionedTransaction::new(SingleVersionedData::new());
    tx.insert(&a, b"1".to_vec());
    let data = tx.abort();
    assert!(data.get(&a).is_none());
}
