use diffbelt::common::OwnedGenerationId;
use diffbelt::http::data::{
    EncodedGenerationIdJsonData, EncodedKeyJsonData, EncodedPhantomIdJsonData,
    EncodedValueJsonData, KeyValueUpdateJsonData,
};
use diffbelt::http::errors::HttpError;
use diffbelt::http::put_many::{
    parse_options_from_flatbuffers, parse_options_from_json, put_many_flatbuffers_request,
    put_many_response_json_data, PutManyFlatItem, PutManyFlatRequest, PutManyRequestJsonData,
};

fn text(s: &str) -> String {
    s.to_string()
}

fn update(key: &str, value: Option<(&str, Option<&str>)>, if_not_present: Option<bool>) -> KeyValueUpdateJsonData {
    KeyValueUpdateJsonData {
        key: EncodedKeyJsonData { value: text(key), encoding: None },
        if_not_present,
        value: value.map(|(v, e)| EncodedValueJsonData { value: text(v), encoding: e.map(text) }),
    }
}

fn flatbuffers_message<T>(r: Result<T, HttpError>) -> &'static str {
    match r {
        Err(HttpError::GenericFlatbuffers400(m)) => m,
        _ => panic!("expected a binary request error"),
    }
}

#[test]
fn put_many_json_reads_every_write() {
    let data = PutManyRequestJsonData {
        items: vec![
            update("a", Some(("1", None)), None),
            update("b", None, Some(true)),
            update("c", Some(("AAE=", Some("base64"))), Some(false)),
        ],
        generation_id: Some(EncodedGenerationIdJsonData { value: text("gen"), encoding: None }),
        phantom_id: Some(EncodedPhantomIdJsonData { value: text("ph"), encoding: None }),
    };
    let o = parse_options_from_json(data).unwrap();
    assert_eq!(o.generation_id.unwrap().get_byte_array(), b"gen");
    assert_eq!(o.phantom_id.unwrap().get_byte_array(), b"ph");
    assert_eq!(o.items.len(), 3);
    assert_eq!(o.items[0].key.get_byte_array(), b"a");
    assert_eq!(o.items[0].value.as_ref().unwrap().get_value(), b"1");
    assert!(!o.items[0].if_not_present);
    assert!(o.items[1].value.is_none());
    assert!(o.items[1].if_not_present);
    assert_eq!(o.items[2].value.as_ref().unwrap().get_value(), &[0u8, 1u8]);
}

#[test]
fn put_many_json_without_ids() {
    let data = PutManyRequestJsonData { items: vec![], generation_id: None, phantom_id: None };
    let o = parse_options_from_json(data).unwrap();
    assert!(o.generation_id.is_none());
    assert!(o.phantom_id.is_none());
    assert!(o.items.is_empty());
}

#[test]
fn put_many_json_errors_in_order() {
    let bad_generation = PutManyRequestJsonData {
        items: vec![update("a", Some(("!", Some("base64"))), None)],
        generation_id: Some(EncodedGenerationIdJsonData { value: text("x"), encoding: Some(text("hex")) }),
        phantom_id: Some(EncodedPhantomIdJsonData { value: text(""), encoding: None }),
    };
    match parse_options_from_json(bad_generation) {
        Err(HttpError::Generic400(m)) => assert_eq!(m, "invalid encoding"),
        _ => panic!("expected the generation id error"),
    }

    let bad_phantom = PutManyRequestJsonData {
        items: vec![update("a", Some(("!", Some("base64"))), None)],
        generation_id: None,
        phantom_id: Some(EncodedPhantomIdJsonData { value: text(""), encoding: None }),
    };
    match parse_options_from_json(bad_phantom) {
        Err(HttpError::Generic400(m)) => assert_eq!(m, "invalid phantomId, it cannot be empty"),
        _ => panic!("expected the phantom id error"),
    }

    let bad_second_item = PutManyRequestJsonData {
        items: vec![
            update("a", None, None),
            update("b", Some(("!", Some("base64"))), None),
            update("c", Some(("x", Some("hex"))), None),
        ],
        generation_id: None,
        phantom_id: None,
    };
    match parse_options_from_json(bad_second_item) {
        Err(HttpError::Generic400(m)) => assert_eq!(m, "invalid serialization"),
        _ => panic!("expected the second write's error"),
    }
}

#[test]
fn put_many_binary_reads_every_write() {
    let request = PutManyFlatRequest {
        collection_name: Some(text("col")),
        generation_id: Some(b"g1".to_vec()),
        phantom_id: None,
        items: Some(vec![
            PutManyFlatItem { key: Some(b"k".to_vec()), value: Some(b"v".to_vec()), if_not_present: true },
            PutManyFlatItem { key: Some(vec![]), value: None, if_not_present: false },
        ]),
    };
    let d = put_many_flatbuffers_request(request).unwrap();
    assert_eq!(d.collection_name, "col");
    assert_eq!(d.options.generation_id.unwrap().get_byte_array(), b"g1");
    assert!(d.options.phantom_id.is_none());
    assert_eq!(d.options.items.len(), 2);
    assert_eq!(d.options.items[0].key.get_byte_array(), b"k");
    assert_eq!(d.options.items[0].value.as_ref().unwrap().get_value(), b"v");
    assert!(d.options.items[0].if_not_present);
    assert_eq!(d.options.items[1].key.get_byte_array(), b"");
    assert!(d.options.items[1].value.is_none());
}

#[test]
fn put_many_binary_errors() {
    let no_name = PutManyFlatRequest { collection_name: None, generation_id: None, phantom_id: None, items: None };
    assert_eq!(flatbuffers_message(put_many_flatbuffers_request(no_name)), "no collection name");

    let long_generation = PutManyFlatRequest {
        collection_name: None,
        generation_id: Some(vec![0u8; 256]),
        phantom_id: Some(vec![]),
        items: None,
    };
    assert_eq!(flatbuffers_message(parse_options_from_flatbuffers(long_generation)), "invalid generation id");

    let empty_phantom = PutManyFlatRequest { collection_name: None, generation_id: None, phantom_id: Some(vec![]), items: None };
    assert_eq!(flatbuffers_message(parse_options_from_flatbuffers(empty_phantom)), "invalid phantom id");

    let no_key = PutManyFlatRequest {
        collection_name: None,
        generation_id: None,
        phantom_id: None,
        items: Some(vec![
            PutManyFlatItem { key: Some(b"k".to_vec()), value: None, if_not_present: false },
            PutManyFlatItem { key: None, value: None, if_not_present: false },
        ]),
    };
    assert_eq!(flatbuffers_message(parse_options_from_flatbuffers(no_key)), "no items key");

    let long_key = PutManyFlatRequest {
        collection_name: None,
        generation_id: None,
        phantom_id: None,
        items: Some(vec![PutManyFlatItem { key: Some(vec![0u8; 16777216]), value: None, if_not_present: false }]),
    };
    assert_eq!(flatbuffers_message(parse_options_from_flatbuffers(long_key)), "invalid items key");

    let empty = PutManyFlatRequest { collection_name: None, generation_id: None, phantom_id: None, items: None };
    assert!(parse_options_from_flatbuffers(empty).unwrap().items.is_empty());
}

#[test]
fn put_many_answer_in_json() {
    let g = OwnedGenerationId::from_vec(b"abc".to_vec()).unwrap();
    let r = put_many_response_json_data(&g);
    assert_eq!(r.generation_id.value, "abc");
    assert!(r.generation_id.encoding.is_none());
    let g = OwnedGenerationId::from_vec(vec![0xffu8]).unwrap();
    let r = put_many_response_json_data(&g);
    assert_eq!(r.generation_id.value, "/w==");
    assert_eq!(r.generation_id.encoding.as_deref(), Some("base64"));
}
