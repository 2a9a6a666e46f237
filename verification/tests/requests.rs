use diffbelt::http::data::{EncodedGenerationIdJsonData, EncodedKeyJsonData, EncodedPhantomIdJsonData};
use diffbelt::http::errors::HttpError;
use diffbelt::http::requests::{
    parse_get_keys_around_request_flatbuffers, parse_get_keys_around_request_json,
    parse_get_request_flatbuffers, parse_get_request_json, parse_start_generation_request_json,
    parse_start_query_request_flatbuffers, parse_start_query_request_json, query_cursor_method,
    GetKeysAroundFlatRequest, GetKeysAroundRequestJsonData, GetRequestJsonData, KeyedFlatRequest,
    QueryCursorMethod, StartGenerationRequestJsonData, StartQueryFlatRequest,
    StartQueryRequestJsonData, parse_create_reader_request_json, parse_create_reader_request_flatbuffers,
    CreateReaderRequestJsonData, ReaderFlat, parse_generation_id_stream_request_flatbuffers,
    GenerationIdStreamFlatRequest,
};

fn key(value: &str, encoding: Option<&str>) -> EncodedKeyJsonData {
    EncodedKeyJsonData { value: value.to_string(), encoding: encoding.map(|e| e.to_string()) }
}

fn generation(value: &str, encoding: Option<&str>) -> EncodedGenerationIdJsonData {
    EncodedGenerationIdJsonData { value: value.to_string(), encoding: encoding.map(|e| e.to_string()) }
}

fn phantom(value: &str) -> EncodedPhantomIdJsonData {
    EncodedPhantomIdJsonData { value: value.to_string(), encoding: None }
}

fn message_400<T>(r: Result<T, HttpError>) -> String {
    match r {
        Err(HttpError::Generic400(m)) => m.to_string(),
        Err(HttpError::GenericString400(m)) => m,
        Err(HttpError::GenericFlatbuffers400(m)) => m.to_string(),
        _ => panic!("expected a 400 error"),
    }
}

#[test]
fn get_request_in_json() {
    let r = parse_get_request_json(GetRequestJsonData {
        key: key("a", None),
        generation_id: Some(generation("AQI=", Some("base64"))),
        phantom_id: Some(phantom("p")),
    })
    .unwrap();
    assert_eq!(r.key.get_byte_array(), b"a");
    assert_eq!(r.generation_id.unwrap().get_byte_array(), &[1u8, 2u8]);
    assert_eq!(r.phantom_id.unwrap().get_byte_array(), b"p");

    let r = parse_get_request_json(GetRequestJsonData { key: key("", None), generation_id: None, phantom_id: None })
        .unwrap();
    assert_eq!(r.key.get_byte_array(), b"");
    assert!(r.generation_id.is_none());
    assert!(r.phantom_id.is_none());
}

#[test]
fn get_request_errors_come_in_order() {
    let r = parse_get_request_json(GetRequestJsonData {
        key: key("x", Some("hex")),
        generation_id: Some(generation("x", Some("hex"))),
        phantom_id: Some(phantom("")),
    });
    assert_eq!(message_400(r), "invalid encoding, allowed \"base64\" or default (\"utf8\")");

    let r = parse_get_request_json(GetRequestJsonData {
        key: key("x", None),
        generation_id: Some(generation("!!", Some("base64"))),
        phantom_id: Some(phantom("")),
    });
    assert_eq!(message_400(r), "invalid serialization");

    let r = parse_get_request_json(GetRequestJsonData {
        key: key("x", None),
        generation_id: None,
        phantom_id: Some(phantom("")),
    });
    assert_eq!(message_400(r), "invalid phantomId, it cannot be empty");
}

#[test]
fn get_keys_around_request_in_json() {
    let r = parse_get_keys_around_request_json(GetKeysAroundRequestJsonData {
        key: key("k", None),
        require_key_existance: true,
        limit: 20,
        generation_id: None,
        phantom_id: None,
    })
    .unwrap();
    assert_eq!(r.request.key.get_byte_array(), b"k");
    assert!(r.require_key_existance);
    assert_eq!(r.limit, 20);

    let r = parse_get_keys_around_request_json(GetKeysAroundRequestJsonData {
        key: key("%%", Some("base64")),
        require_key_existance: false,
        limit: 1,
        generation_id: None,
        phantom_id: None,
    });
    assert_eq!(message_400(r), "invalid value, check encoding");
}

fn keyed(name: Option<&str>, k: Option<&[u8]>, g: Option<Vec<u8>>, p: Option<Vec<u8>>) -> KeyedFlatRequest {
    KeyedFlatRequest {
        collection_name: name.map(|n| n.to_string()),
        key: k.map(|k| k.to_vec()),
        generation_id: g,
        phantom_id: p,
    }
}

#[test]
fn get_request_in_binary() {
    let (name, r) = parse_get_request_flatbuffers(keyed(Some("c"), Some(b"k"), Some(b"g".to_vec()), Some(b"p".to_vec())))
        .unwrap();
    assert_eq!(name, "c");
    assert_eq!(r.key.get_byte_array(), b"k");
    assert_eq!(r.generation_id.unwrap().get_byte_array(), b"g");
    assert_eq!(r.phantom_id.unwrap().get_byte_array(), b"p");

    assert_eq!(message_400(parse_get_request_flatbuffers(keyed(None, None, None, None))), "no collection name");
    assert_eq!(message_400(parse_get_request_flatbuffers(keyed(Some("c"), None, None, None))), "no key");
    assert_eq!(
        message_400(parse_get_request_flatbuffers(keyed(Some("c"), Some(b"k"), Some(vec![1u8; 300]), Some(vec![]))))
        ,
        "invalid generation id"
    );
    assert_eq!(
        message_400(parse_get_request_flatbuffers(keyed(Some("c"), Some(b"k"), None, Some(vec![])))),
        "invalid phantom id"
    );
    let long_key = vec![0u8; 16777216];
    assert_eq!(
        message_400(parse_get_request_flatbuffers(keyed(Some("c"), Some(&long_key), None, None))),
        "invalid key"
    );
}

#[test]
fn get_keys_around_request_in_binary() {
    let (name, r) = parse_get_keys_around_request_flatbuffers(GetKeysAroundFlatRequest {
        keyed: keyed(Some("c"), Some(b"k"), None, None),
        require_key_existance: true,
        limit: 7,
    })
    .unwrap();
    assert_eq!(name, "c");
    assert_eq!(r.limit, 7usize);
    assert!(r.require_key_existance);
    assert_eq!(r.request.key.get_byte_array(), b"k");
}

#[test]
fn start_query_requests() {
    let r = parse_start_query_request_json(StartQueryRequestJsonData {
        generation_id: Some(generation("g", None)),
        phantom_id: None,
    })
    .unwrap();
    assert_eq!(r.generation_id.unwrap().get_byte_array(), b"g");
    assert!(r.phantom_id.is_none());

    let r = parse_start_query_request_json(StartQueryRequestJsonData {
        generation_id: None,
        phantom_id: Some(phantom("")),
    });
    assert_eq!(message_400(r), "invalid phantomId, it cannot be empty");

    let (name, r) = parse_start_query_request_flatbuffers(StartQueryFlatRequest {
        collection_name: Some("c".to_string()),
        generation_id: None,
        phantom_id: Some(b"ph".to_vec()),
    })
    .unwrap();
    assert_eq!(name, "c");
    assert!(r.generation_id.is_none());
    assert_eq!(r.phantom_id.unwrap().get_byte_array(), b"ph");

    let r = parse_start_query_request_flatbuffers(StartQueryFlatRequest {
        collection_name: None,
        generation_id: None,
        phantom_id: None,
    });
    assert_eq!(message_400(r), "no collection name");
}

#[test]
fn start_generation_request() {
    let r = parse_start_generation_request_json(StartGenerationRequestJsonData {
        generation_id: generation("next", None),
        abort_outdated: None,
    })
    .unwrap();
    assert_eq!(r.generation_id.get_byte_array(), b"next");
    assert!(!r.abort_outdated);

    let r = parse_start_generation_request_json(StartGenerationRequestJsonData {
        generation_id: generation("next", None),
        abort_outdated: Some(true),
    })
    .unwrap();
    assert!(r.abort_outdated);

    let r = parse_start_generation_request_json(StartGenerationRequestJsonData {
        generation_id: generation(&"x".repeat(256), None),
        abort_outdated: Some(true),
    });
    assert_eq!(message_400(r), "invalid generationId size");
}

#[test]
fn query_cursor_methods() {
    assert!(matches!(query_cursor_method("GET"), Ok(QueryCursorMethod::Read)));
    assert!(matches!(query_cursor_method("DELETE"), Ok(QueryCursorMethod::Abort)));
    assert!(matches!(query_cursor_method("POST"), Err(HttpError::MethodNotAllowed)));
}

#[test]
fn create_reader_requests() {
    let r = parse_create_reader_request_json(CreateReaderRequestJsonData {
        reader_name: "r".to_string(),
        generation_id: Some(generation("g", None)),
        collection_name: Some("other".to_string()),
    })
    .unwrap();
    assert_eq!(r.reader_name, "r");
    assert_eq!(r.reader_collection_name.as_deref(), Some("other"));
    assert_eq!(r.generation_id.unwrap().get_byte_array(), b"g");

    let r = parse_create_reader_request_json(CreateReaderRequestJsonData {
        reader_name: "r".to_string(),
        generation_id: Some(generation("g", Some("utf16"))),
        collection_name: None,
    });
    assert_eq!(message_400(r), "invalid encoding");

    assert_eq!(message_400(parse_create_reader_request_flatbuffers(None)), "no reader");
    let no_name = ReaderFlat { reader_name: None, collection_name: None, generation_id: None };
    assert_eq!(message_400(parse_create_reader_request_flatbuffers(Some(no_name))), "no reader name");
    let r = parse_create_reader_request_flatbuffers(Some(ReaderFlat {
        reader_name: Some("r".to_string()),
        collection_name: None,
        generation_id: None,
    }))
    .unwrap();
    assert_eq!(r.reader_name, "r");
    assert!(r.reader_collection_name.is_none());
    assert!(r.generation_id.is_none());
}

#[test]
fn generation_id_stream_binary_request() {
    let r = parse_generation_id_stream_request_flatbuffers(GenerationIdStreamFlatRequest {
        collection_name: Some("c".to_string()),
        generation_id: Some(b"g1".to_vec()),
        to_generation_id: None,
    })
    .unwrap();
    assert_eq!(r.collection_name, "c");
    assert_eq!(r.generation_id.unwrap().get_byte_array(), b"g1");
    assert!(r.to_generation_id.is_none());

    let r = parse_generation_id_stream_request_flatbuffers(GenerationIdStreamFlatRequest {
        collection_name: None,
        generation_id: None,
        to_generation_id: Some(vec![0u8; 256]),
    });
    assert_eq!(message_400(r), "invalid generation id");

    let r = parse_generation_id_stream_request_flatbuffers(GenerationIdStreamFlatRequest {
        collection_name: None,
        generation_id: None,
        to_generation_id: None,
    });
    assert_eq!(message_400(r), "no collection_name");
}
