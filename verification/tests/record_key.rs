use diffbelt::common::{OwnedCollectionKey, OwnedGenerationId, OwnedPhantomId};
use diffbelt::record_key::{OwnedParsedRecordKey, OwnedRecordKey};

fn key(b: &[u8]) -> OwnedCollectionKey {
    OwnedCollectionKey::from_vec(b.to_vec()).unwrap()
}

fn generation(b: &[u8]) -> OwnedGenerationId {
    OwnedGenerationId::from_vec(b.to_vec()).unwrap()
}

#[test]
fn record_key_layout() {
    let parsed = OwnedParsedRecordKey::new(&key(b"ab"), &generation(&[7]), None);
    let record = parsed.as_record_key();
    assert_eq!(record.get_byte_array(), &[0, 0, 2, b'a', b'b', 1, 7, 0][..]);

    let phantom = OwnedPhantomId::from_vec(vec![9, 9]).unwrap();
    let parsed = OwnedParsedRecordKey::new(&key(b""), &generation(&[]), Some(&phantom));
    let record = parsed.as_record_key();
    assert_eq!(record.get_byte_array(), &[0, 0, 0, 0, 2, 9, 9][..]);
}

#[test]
fn empty_phantom_counts_as_none() {
    let empty = OwnedPhantomId::from_vec(vec![]).unwrap();
    let parsed = OwnedParsedRecordKey::new(&key(b"k"), &generation(&[1]), Some(&empty));
    assert!(!parsed.is_phantom());
}

#[test]
fn record_key_round_trip() {
    let phantom = OwnedPhantomId::from_vec(vec![1, 2, 3]).unwrap();
    let long_key = vec![b'x'; 300];
    let parsed = OwnedParsedRecordKey::new(&key(&long_key), &generation(&[0, 1]), Some(&phantom));
    let record = parsed.as_record_key();
    let bytes = record.get_byte_array().to_vec();
    let validated = OwnedRecordKey::validate(bytes).unwrap();
    let back = validated.parse();
    assert!(back.same_as(&parsed));
    assert_eq!(back.collection_key().get_byte_array(), &long_key[..]);
    assert_eq!(back.generation_id().get_byte_array(), &[0, 1][..]);
    assert_eq!(back.phantom_id().unwrap().get_byte_array(), &[1, 2, 3][..]);
}

#[test]
fn invalid_record_keys_are_refused() {
    assert!(OwnedRecordKey::validate(vec![]).is_err());
    assert!(OwnedRecordKey::validate(vec![0, 0, 1]).is_err());
    assert!(OwnedRecordKey::validate(vec![0, 0, 0, 0, 0, 5]).is_err());
    assert!(OwnedRecordKey::validate(vec![0, 0, 0, 0, 0]).is_ok());
    assert!(OwnedRecordKey::validate(vec![0, 0, 0, 0, 0, 0]).is_err());
    assert!(OwnedRecordKey::validate(vec![0, 0, 0, 0, 1, 7]).is_ok());
    assert!(OwnedRecordKey::validate(vec![0, 0, 0, 0, 2, 7]).is_err());
}

#[test]
fn size_limits() {
    assert!(OwnedCollectionKey::from_vec(vec![0; 16777215]).is_ok());
    assert!(OwnedCollectionKey::from_vec(vec![0; 16777216]).is_err());
    assert!(OwnedGenerationId::from_vec(vec![0; 255]).is_ok());
    assert!(OwnedGenerationId::from_vec(vec![0; 256]).is_err());
    assert!(OwnedPhantomId::from_vec(vec![0; 256]).is_err());
    assert!(OwnedPhantomId::new_nonempty(&[]).is_none());
    assert!(OwnedPhantomId::new_nonempty(&[1]).is_some());
}

#[test]
fn generation_order_is_byte_order() {
    let a = generation(&[0, 1]);
    let b = generation(&[0, 2]);
    let c = generation(&[0, 1, 0]);
    assert!(a.less_than(&b));
    assert!(a.less_than(&c));
    assert!(c.less_than(&b));
    assert!(a.less_or_equal(&a));
    assert!(!b.less_or_equal(&a));
    assert!(a.less_or_equal_with_opt_or(Some(&b), false));
    assert!(!a.less_or_equal_with_opt_or(None, false));
    assert!(a.less_or_equal_with_opt_or(None, true));
}
