use diffbelt::common::{OwnedCollectionKey, OwnedGenerationId, OwnedPhantomId};
use diffbelt::diff_logic::{
    DiffLogic, DiffLogicAction, DiffLogicError, DiffLogicInput, DiffLogicSubAction, NewDiffLogic,
};
use diffbelt::record_key::OwnedParsedRecordKey;

fn key(b: &[u8]) -> OwnedCollectionKey {
    OwnedCollectionKey::from_vec(b.to_vec()).unwrap()
}

fn generation(b: &[u8]) -> OwnedGenerationId {
    OwnedGenerationId::from_vec(b.to_vec()).unwrap()
}

fn record(k: &[u8], g: &[u8]) -> OwnedParsedRecordKey {
    OwnedParsedRecordKey::new(&key(k), &generation(g), None)
}

fn phantom_record(k: &[u8], g: &[u8], p: &[u8]) -> OwnedParsedRecordKey {
    let p = OwnedPhantomId::from_vec(p.to_vec()).unwrap();
    OwnedParsedRecordKey::new(&key(k), &generation(g), Some(&p))
}

fn logic(from: &[u8], to: &[u8]) -> DiffLogic {
    NewDiffLogic {
        from_generation_id: Some(generation(from)),
        to_generation_id: generation(to),
        items_limit: 100,
        records_to_view_limit: 1000,
    }
    .new()
}

fn start(logic: &mut DiffLogic, first: &[u8], second: Option<&[u8]>) {
    assert!(matches!(logic.run(DiffLogicInput::Init), Ok(DiffLogicAction::GetNextChangedKey)));
    assert!(matches!(
        logic.run(DiffLogicInput::NextChangedKey(Some(key(first)))),
        Ok(DiffLogicAction::GetNextChangedKey)
    ));
    match logic.run(DiffLogicInput::NextChangedKey(second.map(key))) {
        Ok(DiffLogicAction::SetCursorAndGetNext(k)) => {
            let expected = record(first, &[]).as_record_key();
            assert_eq!(k.get_byte_array(), expected.get_byte_array());
        }
        _ => panic!("expected SetCursorAndGetNext"),
    }
}

#[test]
fn diff_emits_values_visible_in_both_generations() {
    let mut logic = logic(&[1], &[3]);
    start(&mut logic, b"a", None);
    assert!(matches!(
        logic.run(DiffLogicInput::NextCursorKey(Some(record(b"a", &[1])))),
        Ok(DiffLogicAction::GetNextCursorKey)
    ));
    assert!(matches!(
        logic.run(DiffLogicInput::NextCursorKey(Some(record(b"a", &[2])))),
        Ok(DiffLogicAction::GetNextCursorKey)
    ));
    match logic.run(DiffLogicInput::NextCursorKey(Some(record(b"a", &[4])))) {
        Ok(DiffLogicAction::EmitItem(item)) => {
            assert_eq!(item.key.get_byte_array(), b"a");
            assert_eq!(
                item.from_key.unwrap().get_byte_array(),
                record(b"a", &[1]).as_record_key().get_byte_array()
            );
            assert_eq!(
                item.to_key.unwrap().get_byte_array(),
                record(b"a", &[2]).as_record_key().get_byte_array()
            );
            assert!(matches!(item.next_action, DiffLogicSubAction::Finish));
        }
        _ => panic!("expected EmitItem"),
    }
    assert!(matches!(
        logic.run(DiffLogicInput::NextCursorKey(None)),
        Err(DiffLogicError::AlreadyFinished)
    ));
}

#[test]
fn key_created_after_from_has_no_from_value() {
    let mut logic = logic(&[1], &[3]);
    start(&mut logic, b"a", None);
    assert!(matches!(
        logic.run(DiffLogicInput::NextCursorKey(Some(record(b"a", &[2])))),
        Ok(DiffLogicAction::GetNextCursorKey)
    ));
    match logic.run(DiffLogicInput::NextCursorKey(None)) {
        Ok(DiffLogicAction::EmitItem(item)) => {
            assert!(item.from_key.is_none());
            assert_eq!(
                item.to_key.unwrap().get_byte_array(),
                record(b"a", &[2]).as_record_key().get_byte_array()
            );
        }
        _ => panic!("expected EmitItem"),
    }
}

#[test]
fn unchanged_key_is_an_error() {
    let mut logic = logic(&[2], &[3]);
    start(&mut logic, b"a", None);
    assert!(matches!(
        logic.run(DiffLogicInput::NextCursorKey(Some(record(b"a", &[1])))),
        Ok(DiffLogicAction::GetNextCursorKey)
    ));
    assert!(matches!(
        logic.run(DiffLogicInput::NextCursorKey(Some(record(b"b", &[1])))),
        Err(DiffLogicError::ChangeNotFound)
    ));
    assert!(matches!(
        logic.run(DiffLogicInput::NextCursorKey(None)),
        Err(DiffLogicError::AlreadyErrored)
    ));
}

#[test]
fn next_changed_key_that_follows_is_read_on() {
    let mut logic = logic(&[1], &[3]);
    start(&mut logic, b"a", Some(b"b"));
    assert!(matches!(
        logic.run(DiffLogicInput::NextCursorKey(Some(record(b"a", &[2])))),
        Ok(DiffLogicAction::GetNextCursorKey)
    ));
    match logic.run(DiffLogicInput::NextCursorKey(Some(record(b"b", &[2])))) {
        Ok(DiffLogicAction::EmitItem(item)) => {
            assert!(matches!(
                item.next_action,
                DiffLogicSubAction::GetNextCursorKeyAndNextChangedKey
            ));
        }
        _ => panic!("expected EmitItem"),
    }
    assert!(matches!(
        logic.run(DiffLogicInput::NextCursorAndChangedKey((Some(record(b"b", &[2])), None))),
        Ok(DiffLogicAction::GetNextCursorKey)
    ));
    match logic.run(DiffLogicInput::NextCursorKey(None)) {
        Ok(DiffLogicAction::EmitItem(item)) => {
            assert_eq!(item.key.get_byte_array(), b"b");
            assert!(matches!(item.next_action, DiffLogicSubAction::Finish));
        }
        _ => panic!("expected EmitItem"),
    }
}

#[test]
fn next_changed_key_elsewhere_moves_the_cursor() {
    let mut logic = logic(&[1], &[3]);
    start(&mut logic, b"a", Some(b"c"));
    assert!(matches!(
        logic.run(DiffLogicInput::NextCursorKey(Some(record(b"a", &[2])))),
        Ok(DiffLogicAction::GetNextCursorKey)
    ));
    match logic.run(DiffLogicInput::NextCursorKey(Some(record(b"b", &[1])))) {
        Ok(DiffLogicAction::EmitItem(item)) => match item.next_action {
            DiffLogicSubAction::SetCursorAndGetNextCursorKeyAndNextChangedKey(k) => {
                assert_eq!(
                    k.get_byte_array(),
                    record(b"c", &[]).as_record_key().get_byte_array()
                );
            }
            _ => panic!("expected a cursor move"),
        },
        _ => panic!("expected EmitItem"),
    }
}

#[test]
fn phantom_records_are_not_values() {
    let mut logic = logic(&[1], &[3]);
    start(&mut logic, b"a", None);
    assert!(matches!(
        logic.run(DiffLogicInput::NextCursorKey(Some(record(b"a", &[2])))),
        Ok(DiffLogicAction::GetNextCursorKey)
    ));
    assert!(matches!(
        logic.run(DiffLogicInput::NextCursorKey(Some(phantom_record(b"a", &[3], &[5])))),
        Ok(DiffLogicAction::GetNextCursorKey)
    ));
    // The phantom record is no value: the key had no value in `from` and
    // the record of generation 2 in `to`.
    match logic.run(DiffLogicInput::NextCursorKey(None)) {
        Ok(DiffLogicAction::EmitItem(e)) => {
            assert!(e.from_key.is_none());
            assert_eq!(
                e.to_key.unwrap().get_byte_array(),
                record(b"a", &[2]).as_record_key().get_byte_array()
            );
        }
        _ => panic!("expected an item"),
    }
}

#[test]
fn phantom_record_does_not_hide_the_from_value() {
    let mut logic = logic(&[1], &[3]);
    start(&mut logic, b"a", None);
    assert!(matches!(
        logic.run(DiffLogicInput::NextCursorKey(Some(record(b"a", &[1])))),
        Ok(DiffLogicAction::GetNextCursorKey)
    ));
    assert!(matches!(
        logic.run(DiffLogicInput::NextCursorKey(Some(phantom_record(b"a", &[1], &[7])))),
        Ok(DiffLogicAction::GetNextCursorKey)
    ));
    assert!(matches!(
        logic.run(DiffLogicInput::NextCursorKey(Some(record(b"a", &[2])))),
        Ok(DiffLogicAction::GetNextCursorKey)
    ));
    match logic.run(DiffLogicInput::NextCursorKey(None)) {
        Ok(DiffLogicAction::EmitItem(e)) => {
            assert_eq!(
                e.from_key.unwrap().get_byte_array(),
                record(b"a", &[1]).as_record_key().get_byte_array()
            );
            assert_eq!(
                e.to_key.unwrap().get_byte_array(),
                record(b"a", &[2]).as_record_key().get_byte_array()
            );
        }
        _ => panic!("expected an item"),
    }
}

#[test]
fn refused_inputs_name_the_expected_one() {
    let mut logic = logic(&[1], &[3]);
    match logic.run(DiffLogicInput::NextChangedKey(None)) {
        Err(DiffLogicError::Unspecified(m)) => assert_eq!(m, "Expected Init as first action"),
        _ => panic!("expected a refusal"),
    }
    assert!(matches!(logic.run(DiffLogicInput::Init), Ok(DiffLogicAction::GetNextChangedKey)));
}

#[test]
fn phantom_record_at_the_end_is_skipped() {
    let mut logic = logic(&[1], &[3]);
    start(&mut logic, b"a", None);
    assert!(matches!(
        logic.run(DiffLogicInput::NextCursorKey(Some(record(b"a", &[1])))),
        Ok(DiffLogicAction::GetNextCursorKey)
    ));
    assert!(matches!(
        logic.run(DiffLogicInput::NextCursorKey(Some(record(b"a", &[2])))),
        Ok(DiffLogicAction::GetNextCursorKey)
    ));
    assert!(matches!(
        logic.run(DiffLogicInput::NextCursorKey(Some(phantom_record(b"a", &[9], &[5])))),
        Ok(DiffLogicAction::EmitItem(_))
    ));
}

#[test]
fn no_changed_keys_finishes() {
    let mut logic = logic(&[1], &[3]);
    assert!(matches!(logic.run(DiffLogicInput::Init), Ok(DiffLogicAction::GetNextChangedKey)));
    assert!(matches!(
        logic.run(DiffLogicInput::NextChangedKey(None)),
        Ok(DiffLogicAction::Sub(DiffLogicSubAction::Finish))
    ));
}

#[test]
fn wrong_inputs_are_refused() {
    let mut logic = logic(&[1], &[3]);
    assert!(matches!(
        logic.run(DiffLogicInput::NextChangedKey(None)),
        Err(DiffLogicError::Unspecified(_))
    ));
    assert!(matches!(logic.run(DiffLogicInput::Init), Ok(DiffLogicAction::GetNextChangedKey)));
    assert!(matches!(logic.run(DiffLogicInput::Init), Err(DiffLogicError::Unspecified(_))));
    assert!(matches!(
        logic.run(DiffLogicInput::NextChangedKey(Some(key(b"a")))),
        Ok(DiffLogicAction::GetNextChangedKey)
    ));
    assert!(matches!(
        logic.run(DiffLogicInput::NextChangedKey(None)),
        Ok(DiffLogicAction::SetCursorAndGetNext(_))
    ));
    assert!(matches!(
        logic.run(DiffLogicInput::NextCursorKey(None)),
        Err(DiffLogicError::ChangedKeyNotFound(_))
    ));
}

#[test]
fn cursor_on_another_key_is_an_error() {
    let mut logic = logic(&[1], &[3]);
    start(&mut logic, b"a", None);
    assert!(matches!(
        logic.run(DiffLogicInput::NextCursorKey(Some(record(b"b", &[1])))),
        Err(DiffLogicError::Unspecified(_))
    ));
    assert!(matches!(
        logic.run(DiffLogicInput::Init),
        Err(DiffLogicError::AlreadyErrored)
    ));
}
