use dbdaemon::bulk_op::BulkOp;
use dbdaemon::elastic::{
    check_bulk_response, push_index_chars, sanitize_index_id, BulkError, BulkItem, BulkItemResult, BulkReponse,
    DocumentResult, Shards,
};
use dbdaemon::error::Error;
use dbdaemon::ids::{ElasticId, ObjectId};
use dbdaemon::state::{schema_table_id, State};
use dbdaemon::table_data::{ElasticDoc, TableData};
use dbdaemon::table_state::{TableNonOperationalState, TableState, VersioningType};
use dbdaemon::updates::UpdateGuard;
use dbdaemon::verification::{VerificationMsg, VerificationScan, VersionProblem};
use dbdaemon::versioned::{Anchor, SingleVersionedValue};

fn item(status: u64) -> BulkItem {
    BulkItem::Index(BulkItemResult {
        id: "x".to_string(),
        index: "i".to_string(),
        primary_term: 1,
        seq_no: 1,
        shards: Shards { failed: 0, skipped: None, successful: 1, total: 1 },
        version: 1,
        result: DocumentResult::Updated,
        status,
    })
}

#[test]
fn bulk_conflicts_are_success() {
    // The same bulk update issued a second time: every write conflicts.
    let res = BulkReponse { errors: true, items: vec![item(409), item(409)], took: 1 };
    assert_eq!(check_bulk_response(&res), Ok(()));
    let res = BulkReponse { errors: false, items: vec![item(200), item(200)], took: 1 };
    assert_eq!(check_bulk_response(&res), Ok(()));
}

#[test]
fn bulk_failures() {
    let res = BulkReponse { errors: true, items: vec![item(200), item(500)], took: 1 };
    assert_eq!(check_bulk_response(&res), Err(BulkError::BulkUpdatePartial));
    let res = BulkReponse { errors: true, items: vec![item(400), item(500)], took: 1 };
    assert_eq!(check_bulk_response(&res), Err(BulkError::BulkUpdateComplete));
    assert_eq!(item(404).status(), 404);
    // The statuses decide, whatever the response's error flag says.
    let res = BulkReponse { errors: false, items: vec![item(200), item(500)], took: 1 };
    assert_eq!(check_bulk_response(&res), Err(BulkError::BulkUpdatePartial));
    let res = BulkReponse { errors: false, items: vec![], took: 1 };
    assert_eq!(check_bulk_response(&res), Ok(()));
}

#[test]
fn verification_overlap_then_progress() {
    let o = ObjectId::from_u128(1);
    let r1 = ElasticId::from_u128(11);
    let r2 = ElasticId::from_u128(12);
    let (t0, t1, t2, t3) = (10, 20, 30, 40);
    let mut scan = VerificationScan::new();
    let msgs = scan.process_batch(vec![
        (r1, o, Anchor { created: t0, from: t0, to: Some(t2) }),
        (r2, o, Anchor { created: t0, from: t1, to: Some(t3) }),
    ]);
    assert_eq!(msgs.len(), 2);
    match &msgs[0] {
        VerificationMsg::Overlap(p) => assert_eq!(
            *p,
            VersionProblem { object_id: o, prev_version_id: r1, cur_version_id: r2, prev_to: Some(t2), cur_from: t1 }
        ),
        _ => panic!("expected an overlap"),
    }
    assert!(matches!(msgs[1], VerificationMsg::Progress(2)));
    let msgs = scan.process_batch(vec![]);
    assert!(matches!(msgs[0], VerificationMsg::Progress(2)));
}

#[test]
fn verification_gap_and_open_predecessor() {
    let o = ObjectId::from_u128(1);
    let mut scan = VerificationScan::new();
    let msgs = scan.process_batch(vec![
        (ElasticId::from_u128(1), o, Anchor { created: 0, from: 0, to: Some(5) }),
        (ElasticId::from_u128(2), o, Anchor { created: 0, from: 5, to: Some(7) }),
        (ElasticId::from_u128(3), o, Anchor { created: 0, from: 9, to: None }),
    ]);
    assert_eq!(msgs.len(), 2);
    assert!(matches!(msgs[0], VerificationMsg::Gap(VersionProblem { prev_to: Some(7), cur_from: 9, .. })));
    let msgs = scan.process_batch(vec![(ElasticId::from_u128(4), o, Anchor { created: 0, from: 12, to: None })]);
    assert!(matches!(msgs[0], VerificationMsg::Overlap(VersionProblem { prev_to: None, cur_from: 12, .. })));
    assert!(matches!(msgs[1], VerificationMsg::Progress(4)));
}

#[test]
fn index_names() {
    assert_eq!(sanitize_index_id("My Table_1.v2"), "my-table-1.v2");
    assert_eq!(sanitize_index_id("ABC"), "abc");
    assert_eq!(sanitize_index_id("a/b*c"), "abc");
    assert_eq!(sanitize_index_id(""), "");
    let mut out = String::from("x");
    push_index_chars(&mut out, &vec!['a', 'B', ' ', '!']);
    assert_eq!(out, "xa-");
}

#[test]
fn registry_reads_and_writes() {
    let mut state: State<u32> = State::new(0);
    let t = "t".to_string();
    assert!(matches!(state.read_table(&t), Err(Error::TableNotFound(_))));
    assert_eq!(*state.read_table(&schema_table_id()).ok().unwrap(), 0);

    assert!(matches!(state.write_table(&t, TableNonOperationalState::Registering, false), Ok(None)));
    assert!(matches!(state.read_table(&t), Err(Error::TableNotFound(_))));
    assert!(matches!(state.write_table(&t, TableNonOperationalState::Registering, true), Ok(None)));
    match state.read_table(&t) {
        Err(Error::TableNotReady(id, s)) => {
            assert_eq!(id, "t");
            assert_eq!(s, TableNonOperationalState::Registering);
            assert_eq!(s.name(), "registering");
        }
        _ => panic!("expected not ready"),
    }
    assert!(matches!(
        state.write_table(&t, TableNonOperationalState::Updating, true),
        Err(Error::TableNotReady(_, TableNonOperationalState::Registering))
    ));
    state.finish_write(&t, Some(7));
    assert_eq!(*state.read_table(&t).ok().unwrap(), 7);
    assert!(matches!(state.write_table(&t, TableNonOperationalState::Unregistering, false), Ok(Some(7))));
    state.finish_write(&t, None);
    assert!(matches!(state.read_table(&t), Err(Error::TableNotFound(_))));

    let schemas = schema_table_id();
    assert!(matches!(state.write_table(&schemas, TableNonOperationalState::Updating, false), Ok(Some(0))));
    assert!(matches!(
        state.write_table(&t, TableNonOperationalState::Registering, true),
        Err(Error::TableNotReady(_, TableNonOperationalState::Updating))
    ));
}

#[test]
fn table_slot_take_and_read() {
    let mut slot = TableState::new(5u8);
    let id = "t".to_string();
    assert_eq!(*slot.read(&id).ok().unwrap(), 5);
    assert_eq!(slot.take(&id, TableNonOperationalState::Reindexing).ok(), Some(5));
    assert!(matches!(slot.take(&id, TableNonOperationalState::Reloading), Err(Error::TableNotReady(_, TableNonOperationalState::Reindexing))));
}

#[test]
fn flush_requests_are_chunked() {
    let mut batch: UpdateGuard<SingleVersionedValue> = UpdateGuard::new();
    for i in 0..2500u128 {
        batch.insert(ObjectId::from_u128(i), ElasticId::from_u128(i), 0, SingleVersionedValue::new(0, vec![]));
    }
    // A later write to the same document replaces the earlier one.
    batch.insert(ObjectId::from_u128(0), ElasticId::from_u128(0), 1, SingleVersionedValue::new(0, vec![1]));
    let reqs = batch.into_requests(1000);
    assert_eq!(reqs.iter().map(|r| r.len()).collect::<Vec<_>>(), vec![1000, 1000, 500]);
    assert_eq!(reqs[0][0].1, 1);
    assert_eq!(reqs[2][499].0, ElasticId::from_u128(2499));
    let mut one: UpdateGuard<SingleVersionedValue> = UpdateGuard::new();
    one.insert(ObjectId::from_u128(1), ElasticId::from_u128(1), 0, SingleVersionedValue::new(0, vec![]));
    let reqs = one.into_requests(1000);
    assert_eq!(reqs.len(), 1);
    assert_eq!(reqs[0].len(), 1);
}

#[test]
fn documents_and_table_data() {
    let doc = ElasticDoc::with_id(ElasticId::from_u128(1), 10u32);
    let next = doc.update(|v| v + 1);
    assert_eq!((next.elastic_id, next.version, next.value), (ElasticId::from_u128(1), 1, 11));
    let (prev, new) = next.update_new(|v| v * 2, |v| v + 100);
    assert_eq!((prev.elastic_id, prev.version, prev.value), (ElasticId::from_u128(1), 2, 22));
    assert_eq!((new.version, new.value), (0, 111));
    assert_ne!(new.elastic_id, prev.elastic_id);
    let fresh = ElasticDoc::new(3u8);
    assert_eq!((fresh.version, fresh.value), (0, 3));
    let data = TableData::Timestamped;
    assert!(data.single_versioned().is_none());
    assert!(data.dual_versioned().is_none());
}

#[test]
fn bulk_lines() {
    let mut out = Vec::new();
    BulkOp::Index { index: None, id: "abc".to_string(), version: 5, value: b"{\"a\":1}".to_vec() }.write(&mut out);
    assert_eq!(
        String::from_utf8(out).unwrap(),
        "{\"index\":{\"_id\":\"abc\",\"_index\":null,\"version\":5,\"version_type\":\"external\"}}\n{\"a\":1}\n"
    );
    let mut out = Vec::new();
    BulkOp::Delete { index: Some("ix".to_string()), id: "q\"\\\n\u{1}é".to_string(), version: 1234567890 }.write(&mut out);
    assert_eq!(
        String::from_utf8(out).unwrap(),
        "{\"delete\":{\"_id\":\"q\\\"\\\\\\n\\u0001é\",\"_index\":\"ix\",\"version\":1234567890,\"version_type\":\"external\"}}\n"
    );
    let mut out = b"x".to_vec();
    BulkOp::Create { index: None, id: String::new(), version: 0, value: b"1".to_vec() }.write(&mut out);
    assert_eq!(
        String::from_utf8(out).unwrap(),
        "x{\"create\":{\"_id\":\"\",\"_index\":null,\"version\":0,\"version_type\":\"external\"}}\n1\n"
    );
}

#[test]
fn table_data_by_versioning() {
    assert!(matches!(TableData::new(VersioningType::Timestamped), TableData::Timestamped));
    let single = TableData::new(VersioningType::SingleTimeline);
    assert!(single.single_versioned().unwrap().object_ids().is_empty());
    assert!(single.dual_versioned().is_none());
    let dual = TableData::new(VersioningType::DualTimeline);
    assert!(dual.dual_versioned().unwrap().object_ids().is_empty());
    let t = "t".to_string();
    assert!(dual.dual_versioned_for("read_config_object", &t).is_ok());
    match dual.single_versioned_for("read_discovery_object", &t) {
        Err(Error::NoTimeline(m, table)) => {
            assert_eq!(m, "read_discovery_object");
            assert_eq!(table, "t");
        }
        _ => panic!("expected no timeline"),
    }
    assert!(matches!(single.dual_versioned_for("m", &t), Err(Error::NoTimeline(_, _))));
}
