use diffbelt::str_serialization::{base64_decode_bytes, base64_encode_bytes, StrSerializationType};

#[test]
fn base64_of_generation_id_from_readme() {
    let id: Vec<u8> = vec![0, 0, 0, 0, 0, 0, 0x0a, 0x6e];
    let (text, used) = StrSerializationType::Base64.serialize_with_priority(&id);
    assert_eq!(text, "AAAAAAAACm4=");
    assert!(used == StrSerializationType::Base64);
}

#[test]
fn incremented_generation_ids_from_readme() {
    let zero: Vec<u8> = vec![0; 8];
    let one: Vec<u8> = vec![0, 0, 0, 0, 0, 0, 0, 1];
    let two: Vec<u8> = vec![0, 0, 0, 0, 0, 0, 0, 2];
    assert_eq!(base64_encode_bytes(&zero), b"AAAAAAAAAAA=".to_vec());
    assert_eq!(base64_encode_bytes(&one), b"AAAAAAAAAAE=".to_vec());
    assert_eq!(base64_encode_bytes(&two), b"AAAAAAAAAAI=".to_vec());
}

#[test]
fn utf8_bytes_stay_text() {
    let (text, used) = StrSerializationType::Utf8.serialize_with_priority("hello".as_bytes());
    assert_eq!(text, "hello");
    assert!(used == StrSerializationType::Utf8);
    assert!(used.to_optional_string().is_none());
}

#[test]
fn base64_priority_always_encodes() {
    let (text, used) = StrSerializationType::Base64.serialize_with_priority("hi".as_bytes());
    assert_eq!(text, "aGk=");
    assert!(used == StrSerializationType::Base64);
    assert_eq!(used.to_optional_string(), Some("base64".to_string()));
}

#[test]
fn base64_round_trip_all_lengths() {
    for len in 0..20usize {
        let bytes: Vec<u8> = (0..len).map(|i| (i * 37 + 200) as u8).collect();
        let text = base64_encode_bytes(&bytes);
        assert_eq!(text.len() % 4, 0);
        assert_eq!(base64_decode_bytes(&text), Some(bytes));
    }
}

#[test]
fn base64_rejects_bad_text() {
    assert_eq!(base64_decode_bytes(b"abc"), None);
    assert_eq!(base64_decode_bytes(b"ab$="), None);
    assert_eq!(base64_decode_bytes(b"QR=="), None);
    assert_eq!(base64_decode_bytes(b"=AAA"), None);
    assert_eq!(base64_decode_bytes(b"QQ==QQ=="), None);
    assert_eq!(base64_decode_bytes(b"QQ=="), Some(b"A".to_vec()));
    assert_eq!(base64_decode_bytes(b""), Some(Vec::new()));
}

#[test]
fn encoding_names() {
    assert!(StrSerializationType::from_str("utf8") == Ok(StrSerializationType::Utf8));
    assert!(StrSerializationType::from_str("base64") == Ok(StrSerializationType::Base64));
    assert!(StrSerializationType::from_str("hex").is_err());
    assert!(StrSerializationType::from_opt_str(None) == Ok(StrSerializationType::Utf8));
    assert!(StrSerializationType::from_opt_str(Some("Base64".to_string())).is_err());
}

#[test]
fn deserialize_reads_each_encoding() {
    assert_eq!(StrSerializationType::Utf8.deserialize("héllo"), Ok("héllo".as_bytes().to_vec()));
    assert_eq!(StrSerializationType::Base64.deserialize("aGk="), Ok(b"hi".to_vec()));
    assert_eq!(StrSerializationType::Base64.deserialize("not base64"), Err(()));
}

#[test]
fn serialize_then_deserialize_gives_bytes_back() {
    let samples: Vec<Vec<u8>> = vec![vec![], vec![0xff], b"text".to_vec(), vec![0xc3, 0x28, 1, 2]];
    for bytes in samples {
        let (text, used) = StrSerializationType::Utf8.serialize_with_priority(&bytes);
        assert_eq!(used.deserialize(&text), Ok(bytes));
    }
}
