use diffbelt::raw_db::diff_state::{continue_prev, DiffCursorState};
use diffbelt::diff_logic::DiffLogicError;
use diffbelt::common::{OwnedCollectionKey, OwnedCollectionValue, OwnedGenerationId, OwnedPhantomId};
use diffbelt::raw_db::changed_keys::{collect_changed_keys, ChangedKeySet, GenerationKeyEntry, InMemoryChangedKeysIter};
use diffbelt::raw_db::diff_records::{diff_collection_records, RecordStore, StoredRecord};
use diffbelt::raw_db::diff_state::{DiffCollectionRecordsOptions, diff_item_for_key, select_diff_generations, DiffStateMode, GenerationSize};
use diffbelt::raw_db::errors::RawDbError;
use diffbelt::raw_db::gc_iterator::{is_need_to_delete, value_at_key, CursorMove, GcStep, NewGcIterator};
use diffbelt::raw_db::writes::{
    plan_commit_generation, RawDbCommitGenerationOptions,
    generation_key, plan_generation_finish, plan_put_many, plan_start_phantom, prefixed_phantom_id_key,
    ColumnFamily, PutManyCollectionRecordsItem, PutManyCollectionRecordsOptions, StartPhantomOptions,
    WriteOp,
};
use diffbelt::raw_db::keys_around::{keys_around_sync, RawDbGetKeysAroundOptions};
use diffbelt::record_key::OwnedParsedRecordKey;

fn key(b: &[u8]) -> OwnedCollectionKey {
    OwnedCollectionKey::from_vec(b.to_vec()).unwrap()
}

fn generation(b: &[u8]) -> OwnedGenerationId {
    OwnedGenerationId::from_vec(b.to_vec()).unwrap()
}

fn phantom(b: &[u8]) -> OwnedPhantomId {
    OwnedPhantomId::from_vec(b.to_vec()).unwrap()
}

fn drain(mut iter: InMemoryChangedKeysIter) -> Vec<Vec<u8>> {
    let mut out = Vec::new();
    while let Some(k) = iter.next() {
        out.push(k.get_byte_array().to_vec());
    }
    out
}

#[test]
fn changed_key_set_is_sorted_and_unique() {
    let mut set = ChangedKeySet::new();
    for k in [b"c".as_slice(), b"a", b"b", b"a", b"ab", b""] {
        set.insert(key(k));
    }
    assert_eq!(set.len(), 5);
    let keys = drain(InMemoryChangedKeysIter::new(set));
    assert_eq!(keys, vec![b"".to_vec(), b"a".to_vec(), b"ab".to_vec(), b"b".to_vec(), b"c".to_vec()]);
}

fn entry(g: &[u8], k: &[u8]) -> GenerationKeyEntry {
    GenerationKeyEntry { generation_id: generation(g), collection_key: key(k) }
}

#[test]
fn changed_keys_between_generations() {
    let entries = vec![
        entry(&[1], b"x"),
        entry(&[2], b"b"),
        entry(&[2], b"a"),
        entry(&[3], b"c"),
        entry(&[3], b"b"),
        entry(&[4], b"d"),
    ];
    let from = generation(&[1]);
    let set = collect_changed_keys(&entries, Some(&from), &generation(&[3]), None);
    assert_eq!(drain(InMemoryChangedKeysIter::new(set)), vec![b"a".to_vec(), b"b".to_vec(), b"c".to_vec()]);

    let set = collect_changed_keys(&entries, None, &generation(&[2]), None);
    assert_eq!(drain(InMemoryChangedKeysIter::new(set)), vec![b"a".to_vec(), b"b".to_vec(), b"x".to_vec()]);

    let filter = key(b"b");
    let set = collect_changed_keys(&entries, Some(&from), &generation(&[3]), Some(&filter));
    assert_eq!(drain(InMemoryChangedKeysIter::new(set)), vec![b"b".to_vec(), b"c".to_vec()]);
}

fn size(g: &[u8], count: u32) -> GenerationSize {
    GenerationSize { generation_id: generation(g), count }
}

fn mode(m: DiffStateMode) -> (u8, Vec<u8>) {
    match m {
        DiffStateMode::Empty => (0, Vec::new()),
        DiffStateMode::SingleGeneration(g) => (1, g.get_byte_array().to_vec()),
        DiffStateMode::InMemory(g) => (2, g.get_byte_array().to_vec()),
    }
}

#[test]
fn diff_generations_within_limit() {
    let sizes = vec![size(&[1], 5), size(&[2], 5), size(&[3], 5), size(&[4], 5)];
    let from = generation(&[1]);
    assert_eq!(mode(select_diff_generations(&sizes, Some(&from), &generation(&[4]), 10)), (2, vec![3]));
    assert_eq!(mode(select_diff_generations(&sizes, Some(&from), &generation(&[4]), 100)), (2, vec![4]));
    assert_eq!(mode(select_diff_generations(&sizes, Some(&from), &generation(&[2]), 100)), (2, vec![2]));
    assert_eq!(mode(select_diff_generations(&sizes, Some(&from), &generation(&[4]), 4)), (1, vec![2]));
    assert_eq!(mode(select_diff_generations(&sizes, None, &generation(&[4]), 5)), (2, vec![1]));
    assert_eq!(mode(select_diff_generations(&sizes, Some(&generation(&[4])), &generation(&[9]), 5)), (0, vec![]));
    assert_eq!(mode(select_diff_generations(&sizes, Some(&from), &generation(&[1, 5]), 5)), (0, vec![]));
    assert_eq!(mode(select_diff_generations(&Vec::new(), None, &generation(&[1]), 5)), (0, vec![]));
}

#[test]
fn diff_items_compare_present_values() {
    let k = key(b"k");
    assert!(diff_item_for_key(k.copy(), Some(OwnedCollectionValue::new(b"1")), Some(OwnedCollectionValue::new(b"1"))).is_none());
    assert!(diff_item_for_key(k.copy(), Some(OwnedCollectionValue::new(b"")), None).is_none());
    let d = diff_item_for_key(k.copy(), None, Some(OwnedCollectionValue::new(b"2"))).unwrap();
    assert!(d.from_value.is_none());
    assert_eq!(d.to_value.unwrap().get_value(), b"2");
    let d = diff_item_for_key(k, Some(OwnedCollectionValue::new(b"1")), Some(OwnedCollectionValue::new(b""))).unwrap();
    assert_eq!(d.from_value.unwrap().get_value(), b"1");
    assert!(d.to_value.is_none());
    assert!(d.intermediate_values.is_empty());
}

#[test]
fn gone_phantoms() {
    let gc = phantom(&[5]);
    assert!(is_need_to_delete(Some(&phantom(&[4])), &gc));
    assert!(is_need_to_delete(Some(&phantom(&[5])), &gc));
    assert!(!is_need_to_delete(Some(&phantom(&[6])), &gc));
    assert!(!is_need_to_delete(None, &gc));
}

#[test]
fn gc_walk_skips_gone_phantom_records() {
    let mut walk = NewGcIterator { gc_phantom_id: Some(phantom(&[5])) }.new();
    assert!(matches!(walk.start_next_key(), Some(CursorMove::SeekToFirst)));
    let gone = OwnedParsedRecordKey::new(&key(b"a"), &generation(&[1]), Some(&phantom(&[3])));
    let gone_bytes = gone.as_record_key().get_byte_array().to_vec();
    assert!(matches!(walk.on_cursor_key(Some(&gone_bytes)), GcStep::Skip));
    let alive = OwnedParsedRecordKey::new(&key(b"a"), &generation(&[1]), Some(&phantom(&[7])));
    let alive_bytes = alive.as_record_key().get_byte_array().to_vec();
    match walk.on_cursor_key(Some(&alive_bytes)) {
        GcStep::Key(k) => assert!(k.same_as(&alive)),
        _ => panic!("expected a key"),
    }
    assert!(matches!(walk.on_cursor_key(Some(&[1, 2])), GcStep::InvalidRecordKey));
    assert!(matches!(walk.on_cursor_key(None), GcStep::End));
    assert!(matches!(walk.start_next_key(), Some(CursorMove::Next)));
    let deleted = walk.into_keys_to_delete();
    assert_eq!(deleted.len(), 1);
    assert_eq!(deleted[0].get_byte_array(), &gone_bytes[..]);
}

#[test]
fn gc_walk_save_and_restore() {
    let mut walk = NewGcIterator { gc_phantom_id: None }.new();
    assert!(matches!(walk.start_next_key(), Some(CursorMove::SeekToFirst)));
    walk.save_state(true, Some(b"here"));
    assert!(matches!(walk.seek(b"elsewhere"), CursorMove::Seek(k) if k == b"elsewhere".to_vec()));
    match walk.restore_state() {
        Some(CursorMove::Seek(k)) => assert_eq!(k, b"here".to_vec()),
        _ => panic!("expected a seek"),
    }
    assert!(matches!(walk.start_next_key(), Some(CursorMove::Next)));

    let mut fresh = NewGcIterator { gc_phantom_id: None }.new();
    fresh.save_state(true, Some(b"ignored"));
    assert!(fresh.restore_state().is_none());
    assert!(matches!(fresh.start_next_key(), Some(CursorMove::SeekToFirst)));

    let mut ended = NewGcIterator { gc_phantom_id: None }.new();
    assert!(ended.start_next_key().is_some());
    ended.save_state(false, None);
    assert!(ended.restore_state().is_none());
    assert!(ended.start_next_key().is_none());
    ended.make_invalid();
    assert!(ended.start_next().is_none());
}

#[test]
fn value_under_cursor() {
    assert_eq!(value_at_key(b"k", Some(b"k"), Some(b"v")).unwrap().get_value(), b"v");
    assert!(matches!(value_at_key(b"k", None, None), Err(RawDbError::Unspecified(m)) if m == "get_value_for_key: key not found"));
    assert!(matches!(value_at_key(b"k", Some(b"j"), Some(b"v")), Err(RawDbError::Unspecified(m)) if m == "get_value_for_key: key not matches"));
    assert!(matches!(value_at_key(b"k", Some(b"k"), None), Err(RawDbError::Unspecified(m)) if m == "get_value_for_key: no value"));
}

#[test]
fn phantom_writes() {
    let p = phantom(&[1, 2]);
    let key = prefixed_phantom_id_key(&p);
    assert_eq!(key, b"next_generation_phantoms:\x01\x02".to_vec());
    let ops = plan_start_phantom(&StartPhantomOptions { phantom_id: p });
    assert_eq!(ops.len(), 2);
    assert!(matches!(&ops[0], WriteOp::Merge { column_family: ColumnFamily::Meta, key, value } if key == b"prev_phantom_id" && value == &vec![1, 2]));
    assert!(matches!(&ops[1], WriteOp::Put { column_family: ColumnFamily::Meta, value, .. } if value.is_empty()));
}

#[test]
fn generation_finish_keeps_greatest_phantom() {
    let keys = vec![
        b"next_generation_phantoms:\x02".to_vec(),
        b"next_generation_phantoms:\x05\x01".to_vec(),
        b"next_generation_phantoms:\x05".to_vec(),
    ];
    let ops = plan_generation_finish(&keys);
    assert_eq!(ops.len(), 4);
    assert!(matches!(&ops[0], WriteOp::Delete { column_family: ColumnFamily::Meta, key } if key == &keys[0]));
    assert!(matches!(&ops[3], WriteOp::Put { column_family: ColumnFamily::Meta, key, value } if key == b"gc_phantom_id" && value == &vec![5, 1]));
    assert!(plan_generation_finish(&Vec::new()).is_empty());
}

#[test]
fn put_many_writes() {
    let record = OwnedParsedRecordKey::new(&key(b"k"), &generation(&[9]), None).as_record_key();
    let record_bytes = record.get_byte_array().to_vec();
    let phantom_record = OwnedParsedRecordKey::new(&key(b"k"), &generation(&[9]), Some(&phantom(&[1]))).as_record_key();
    let options = PutManyCollectionRecordsOptions {
        items: vec![
            PutManyCollectionRecordsItem { record_key: record, value: Some(OwnedCollectionValue::new(b"v")) },
            PutManyCollectionRecordsItem { record_key: phantom_record, value: None },
        ],
        phantom_id: None,
    };
    let ops = plan_put_many(&options, false).unwrap();
    assert_eq!(ops.len(), 4);
    assert!(matches!(&ops[0], WriteOp::Put { column_family: ColumnFamily::Default, key, value } if key == &record_bytes && value == b"v"));
    let index_key = generation_key(&generation(&[9]), &key(b"k"));
    assert_eq!(index_key, vec![1, 9, b'k']);
    assert!(matches!(&ops[1], WriteOp::Put { column_family: ColumnFamily::Generations, key, .. } if key == &index_key));
    assert!(matches!(&ops[2], WriteOp::Merge { column_family: ColumnFamily::GenerationsSize, key, value } if key == &vec![9] && value == &vec![0, 0, 0, 1]));
    assert!(matches!(&ops[3], WriteOp::Put { column_family: ColumnFamily::Default, value, .. } if value.is_empty()));

    let with_phantom = PutManyCollectionRecordsOptions { items: Vec::new(), phantom_id: Some(phantom(&[1])) };
    assert!(matches!(plan_put_many(&with_phantom, false), Err(RawDbError::NoSuchPhantom)));
    assert!(plan_put_many(&with_phantom, true).unwrap().is_empty());
}


#[test]
fn keys_around_both_sides() {
    let rk = |k: &[u8]| OwnedParsedRecordKey::new(&key(k), &generation(&[1]), None).as_record_key();
    let options = RawDbGetKeysAroundOptions { record_key: rk(b"4"), limit: 2, records_to_view_limit: 100 };
    let forward = vec![rk(b"4"), rk(b"5"), rk(b"6"), rk(b"7")];
    let backward = vec![rk(b"4"), rk(b"3"), rk(b"2")];
    let result = keys_around_sync(&options, false, &forward, &backward).unwrap();
    let right: Vec<Vec<u8>> = result.right.iter().map(|k| k.get_byte_array().to_vec()).collect();
    let left: Vec<Vec<u8>> = result.left.iter().map(|k| k.get_byte_array().to_vec()).collect();
    assert_eq!(right, vec![b"5".to_vec(), b"6".to_vec()]);
    assert!(result.has_more_on_the_right);
    assert_eq!(left, vec![b"3".to_vec(), b"2".to_vec()]);
    assert!(!result.has_more_on_the_left);

    let missing = vec![rk(b"5")];
    assert!(matches!(
        keys_around_sync(&options, false, &missing, &backward),
        Err(RawDbError::CursorDidNotFoundRecord)
    ));
    let with_phantom = RawDbGetKeysAroundOptions {
        record_key: OwnedParsedRecordKey::new(&key(b"4"), &generation(&[1]), Some(&phantom(&[1]))).as_record_key(),
        limit: 2,
        records_to_view_limit: 100,
    };
    assert!(matches!(
        keys_around_sync(&with_phantom, false, &forward, &backward),
        Err(RawDbError::NoSuchPhantom)
    ));
}

#[test]
fn commit_generation_writes() {
    let options = RawDbCommitGenerationOptions {
        generation_id: OwnedGenerationId::from_vec(b"g1".to_vec()).unwrap(),
        next_generation_id: OwnedGenerationId::from_vec(b"g2".to_vec()).unwrap(),
        update_readers: None,
    };
    let reader_ops = vec![WriteOp::Put { column_family: ColumnFamily::Meta, key: b"r".to_vec(), value: b"v".to_vec() }];
    let phantom_keys = vec![b"next_generation_phantoms:b".to_vec(), b"next_generation_phantoms:c".to_vec()];
    let ops = plan_commit_generation(&options, reader_ops, &phantom_keys);
    assert_eq!(ops.len(), 6);
    match &ops[0] {
        WriteOp::Put { column_family: ColumnFamily::Meta, key, value } => {
            assert_eq!(key, b"generation_id");
            assert_eq!(value, b"g1");
        }
        _ => panic!("expected the generation id"),
    }
    match &ops[1] {
        WriteOp::Put { column_family: ColumnFamily::Meta, key, value } => {
            assert_eq!(key, b"next_generation_id");
            assert_eq!(value, b"g2");
        }
        _ => panic!("expected the next generation id"),
    }
    assert!(matches!(&ops[2], WriteOp::Put { key, .. } if key == b"r"));
    assert!(matches!(&ops[3], WriteOp::Delete { column_family: ColumnFamily::Meta, key } if key == b"next_generation_phantoms:b"));
    assert!(matches!(&ops[4], WriteOp::Delete { column_family: ColumnFamily::Meta, key } if key == b"next_generation_phantoms:c"));
    match &ops[5] {
        WriteOp::Put { column_family: ColumnFamily::Meta, key, value } => {
            assert_eq!(key, b"gc_phantom_id");
            assert_eq!(value, b"c");
        }
        _ => panic!("expected the phantom bound"),
    }
}

fn stored(k: &[u8], g: &[u8], p: Option<&[u8]>, v: &[u8]) -> StoredRecord {
    let phantom = p.map(|p| OwnedPhantomId::from_vec(p.to_vec()).unwrap());
    let parsed = OwnedParsedRecordKey::new(&key(k), &generation(g), phantom.as_ref());
    StoredRecord { key: parsed.as_record_key(), value: v.to_vec() }
}

fn diff_store(gc: Option<&[u8]>) -> RecordStore {
    let mut records = vec![
        stored(b"a", &[1], None, b"1"),
        stored(b"a", &[2], None, b"2"),
        stored(b"b", &[1], None, b"y"),
        stored(b"b", &[2], None, b"x"),
        stored(b"b", &[2], Some(b"p"), b"ghost"),
        stored(b"c", &[1], None, b"same"),
        stored(b"c", &[2], None, b"same"),
    ];
    records.sort_by(|x, y| x.key.get_byte_array().cmp(y.key.get_byte_array()));
    RecordStore {
        records,
        generation_index: vec![entry(&[2], b"a"), entry(&[2], b"b"), entry(&[2], b"c")],
        generation_sizes: vec![size(&[1], 3), size(&[2], 4)],
        gc_phantom_id: gc.map(|p| OwnedPhantomId::from_vec(p.to_vec()).unwrap()),
    }
}

fn diff_options(from: &[u8], to: &[u8]) -> DiffCollectionRecordsOptions {
    DiffCollectionRecordsOptions {
        from_generation_id: Some(generation(from)),
        to_generation_id_loose: generation(to),
        prev_diff_state: None,
        limit: 100,
        records_to_view_limit: 100,
        total_count_in_generations_limit: 100,
    }
}

#[test]
fn diff_over_a_store() {
    let store = diff_store(Some(b"p"));
    let (ok, deleted) = diff_collection_records(&store, &diff_options(&[1], &[2])).unwrap();
    assert_eq!(ok.to_generation_id.get_byte_array(), &[2u8]);
    assert!(ok.next_diff_state.is_none());
    assert_eq!(ok.items.len(), 2);
    assert_eq!(ok.items[0].key.get_byte_array(), b"a");
    assert_eq!(ok.items[0].from_value.as_ref().unwrap().get_value(), b"1");
    assert_eq!(ok.items[0].to_value.as_ref().unwrap().get_value(), b"2");
    // b follows a in the store: its first record is still its `from` value.
    assert_eq!(ok.items[1].key.get_byte_array(), b"b");
    assert_eq!(ok.items[1].from_value.as_ref().unwrap().get_value(), b"y");
    assert_eq!(ok.items[1].to_value.as_ref().unwrap().get_value(), b"x");
    // The record of the collected phantom was met and queued for deletion.
    assert_eq!(deleted.len(), 1);
    assert_eq!(
        deleted[0].get_byte_array(),
        stored(b"b", &[2], Some(b"p"), b"").key.get_byte_array()
    );
}

#[test]
fn diff_without_new_generations_is_empty() {
    let store = diff_store(None);
    let (ok, deleted) = diff_collection_records(&store, &diff_options(&[2], &[2])).unwrap();
    assert!(ok.items.is_empty());
    assert!(deleted.is_empty());
    assert_eq!(ok.to_generation_id.get_byte_array(), &[2u8]);
}

#[test]
fn diff_stops_at_the_loose_generation() {
    let store = diff_store(None);
    let (ok, _) = diff_collection_records(&store, &diff_options(&[0], &[1])).unwrap();
    assert_eq!(ok.to_generation_id.get_byte_array(), &[1u8]);
    // Only generation 1 is covered; no key changed in it per the index.
    assert!(ok.items.is_empty());
}

#[test]
fn continued_diff_starts_at_the_cursor_key() {
    let store = diff_store(None);
    let mut options = diff_options(&[1], &[2]);
    options.prev_diff_state = Some(DiffCursorState {
        changed_key: key(b"b"),
        first_value: None,
        last_value: None,
        next_record_key: stored(b"b", &[1], None, b"").key,
    });
    let (ok, deleted) = diff_collection_records(&store, &options).unwrap();
    assert_eq!(ok.to_generation_id.get_byte_array(), &[2u8]);
    assert_eq!(ok.items.len(), 1);
    assert_eq!(ok.items[0].key.get_byte_array(), b"b");
    assert!(deleted.is_empty());
}

#[test]
fn deleted_value_is_no_value() {
    let mut records = vec![stored(b"k", &[1], None, b"v"), stored(b"k", &[2], None, b"")];
    records.sort_by(|x, y| x.key.get_byte_array().cmp(y.key.get_byte_array()));
    let store = RecordStore {
        records,
        generation_index: vec![entry(&[2], b"k")],
        generation_sizes: vec![size(&[1], 1), size(&[2], 1)],
        gc_phantom_id: None,
    };
    let (ok, _) = diff_collection_records(&store, &diff_options(&[1], &[2])).unwrap();
    assert_eq!(ok.items.len(), 1);
    assert_eq!(ok.items[0].from_value.as_ref().unwrap().get_value(), b"v");
    assert!(ok.items[0].to_value.is_none());
}

#[test]
fn changed_key_without_a_change_fails() {
    let store = RecordStore {
        records: vec![stored(b"d", &[1], None, b"v")],
        generation_index: vec![entry(&[2], b"d")],
        generation_sizes: vec![size(&[1], 1), size(&[2], 1)],
        gc_phantom_id: None,
    };
    assert!(matches!(
        diff_collection_records(&store, &diff_options(&[1], &[2])),
        Err(RawDbError::DiffLogic(DiffLogicError::ChangeNotFound))
    ));
}

#[test]
fn continued_diff_reads_on_from_the_cursor_record_key() {
    let cursor = DiffCursorState {
        changed_key: key(b"b"),
        first_value: None,
        last_value: None,
        next_record_key: stored(b"c", &[1], None, b"").key,
    };
    let index = vec![entry(&[2], b"a"), entry(&[2], b"b"), entry(&[2], b"c")];
    let state = continue_prev(&index, Some(&generation(&[1])), &generation(&[2]), &cursor);
    assert_eq!(state.from_collection_key.get_byte_array(), b"c");
    assert_eq!(state.to_generation_id.get_byte_array(), &[2u8]);
    assert_eq!(state.changed_keys.len(), 2);
}

#[test]
fn record_only_in_the_empty_generation_is_no_change_from_the_start() {
    let store = RecordStore {
        records: vec![stored(b"e", &[], None, b"v")],
        generation_index: vec![entry(&[2], b"e")],
        generation_sizes: vec![size(&[1], 1), size(&[2], 1)],
        gc_phantom_id: None,
    };
    let options = DiffCollectionRecordsOptions { from_generation_id: None, ..diff_options(&[1], &[2]) };
    assert!(matches!(
        diff_collection_records(&store, &options),
        Err(RawDbError::DiffLogic(DiffLogicError::ChangeNotFound))
    ));
}
