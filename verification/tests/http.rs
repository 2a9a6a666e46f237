use diffbelt::http::query::{GenerationIdStreamEvent, GenerationIdStreamStep, GenerationIdStreamWait};
use diffbelt::common::{
    KeyValue, KeyValueDiff, OwnedCollectionKey, OwnedCollectionValue, OwnedGenerationId,
    OwnedPhantomId,
};
use diffbelt::http::collection::check_collection_name;
use diffbelt::http::common_groups::{id_only_group, id_with_name_group};
use diffbelt::http::data::{
    encoded_generation_id_data_decode_opt, encoded_generation_id_data_encode,
    encoded_generation_id_data_into_generation_id, flatbuffers_generation_id_to_owned_generation_id,
    flatbuffers_generation_id_to_owned_generation_id_opt,
    flatbuffers_phantom_id_to_owned_phantom_id_opt, DiffCollectionResponseJsonData, DiffOk,
    EncodedGenerationIdJsonData, EncodedKeyJsonData, EncodedPhantomIdJsonData,
    EncodedValueJsonData, KeyValueJsonData, KeyValueUpdateJsonData,
};
use diffbelt::http::encoding::StringDecoder;
use diffbelt::http::error_response::{map_http_err, usize_to_decimal, ErrorBody};
use diffbelt::http::errors::HttpError;
use diffbelt::http::query::{
    generation_id_stream_answer, generation_id_stream_answers_at_once, generation_id_stream_params, generation_id_stream_should_answer,
    query_params,
};
use diffbelt::http::request_context::RequestContext;
use diffbelt::http::response::{
    create_ok_json_response, create_ok_no_error_json_response, create_ok_static_str_json_response,
    BaseResponse, Response,
};
use diffbelt::str_serialization::StrSerializationType;

use diffbelt::http::collection::{
    create_collection_error_to_http, CreateCollectionFailure,
        create_collection_request_from_flatbuffers, create_collection_request_from_json,
    };
use diffbelt::http::flatbuffers::{
        flatbuffers_request_data, flatbuffers_route_for, FlatbuffersRoute, RequestBodyKind,
    };
use diffbelt::http::validation::allow_only_methods;
use diffbelt::http::read_body::{body_read_error_to_http_error, BodyReadError};

fn json_body(b: ErrorBody) -> String {
    match b {
        ErrorBody::Json(s) => s,
        _ => panic!("expected a JSON body"),
    }
}

#[test]
fn error_bodies_in_json() {
    let (status, body) = map_http_err(HttpError::Generic400("bad \"thing\""), false);
    assert_eq!(status, 400);
    assert_eq!(json_body(body), r#"{"error":"400","details":"bad \"thing\""}"#);

    let (status, body) = map_http_err(HttpError::TooBigPayload(1024), false);
    assert_eq!(status, 413);
    assert_eq!(json_body(body), r#"{"error":"413","bytesMax":1024}"#);

    let (status, body) = map_http_err(HttpError::NotFound, false);
    assert_eq!(status, 404);
    assert_eq!(json_body(body), r#"{"error":"404"}"#);

    let (status, body) = map_http_err(HttpError::Unspecified, false);
    assert_eq!(status, 500);
    assert_eq!(json_body(body), r#"{"error":"500"}"#);

    let (status, body) = map_http_err(HttpError::InvalidJson("eof".to_string()), true);
    assert_eq!(status, 400);
    assert_eq!(json_body(body), r#"{"error":"400","reason":"invalidJson","details":"eof"}"#);

    let (status, body) = map_http_err(HttpError::MethodNotAllowed, false);
    assert_eq!(status, 405);
    assert_eq!(json_body(body), r#"{"error":"405"}"#);

    let (status, body) = map_http_err(HttpError::NoSuchCollection, false);
    assert_eq!(status, 400);
    assert_eq!(json_body(body), r#"{"error":"404","reason":"noSuchCollection"}"#);

    let (status, body) = map_http_err(HttpError::PublicInternal500("io"), false);
    assert_eq!(status, 500);
    assert_eq!(json_body(body), r#"{"error":"500","details":"io"}"#);

    let (status, body) =
        map_http_err(HttpError::GenericString400("line\nbreak".to_string()), false);
    assert_eq!(status, 400);
    assert_eq!(json_body(body), r#"{"error":"400","details":"line\nbreak"}"#);

    let (status, body) = map_http_err(HttpError::ContentTypeUnsupported("ct"), false);
    assert_eq!(status, 400);
    assert_eq!(json_body(body), r#"{"error":"400","details":"ct"}"#);
}

#[test]
fn custom_error_repeats_its_error_field() {
    let (status, body) = map_http_err(
        HttpError::Custom {
            status_code: 400,
            error: Some("outdatedGeneration"),
            reason: Some("r"),
            details: None,
        },
        false,
    );
    assert_eq!(status, 400);
    assert_eq!(
        json_body(body),
        r#"{"error":"outdatedGeneration","reason":"outdatedGeneration","details":null}"#
    );
}

#[test]
fn error_bodies_in_flatbuffers() {
    let (status, body) = map_http_err(HttpError::TooBigPayload(7), true);
    assert_eq!(status, 413);
    match body {
        ErrorBody::Flatbuffers { error, reason, details } => {
            assert_eq!(error, None);
            assert_eq!(reason, Some("payloadTooLarge".to_string()));
            assert_eq!(details, Some("bytesMax:7".to_string()));
        }
        _ => panic!("expected a flatbuffers body"),
    }
    let (status, body) = map_http_err(HttpError::GenericFlatbuffers400("no key"), false);
    assert_eq!(status, 400);
    assert!(matches!(body, ErrorBody::Flatbuffers { .. }));
    let (_, body) = map_http_err(HttpError::NoSuchCollection, true);
    match body {
        ErrorBody::Flatbuffers { error, reason, details } => {
            assert_eq!(error, Some("noSuchCollection".to_string()));
            assert_eq!(reason, None);
            assert_eq!(details, None);
        }
        _ => panic!("expected a flatbuffers body"),
    }
}

#[test]
fn decimal_numbers() {
    assert_eq!(usize_to_decimal(0), "0");
    assert_eq!(usize_to_decimal(9), "9");
    assert_eq!(usize_to_decimal(10), "10");
    assert_eq!(usize_to_decimal(33554432), "33554432");
    assert_eq!(usize_to_decimal(usize::MAX), usize::MAX.to_string());
}

#[test]
fn responses() {
    let r: Result<Response, ()> = create_ok_no_error_json_response();
    match r {
        Ok(Response::StaticStr(s)) => {
            assert_eq!(s.str, r#"{"error":null}"#);
            assert_eq!(s.base.status, 200);
            assert_eq!(s.base.content_type, "application/json; charset=utf-8");
        }
        _ => panic!("expected a static response"),
    }
    let r: Result<Response, ()> = create_ok_static_str_json_response("{}");
    assert!(matches!(r, Ok(Response::StaticStr(s)) if s.str == "{}"));
    let r = create_ok_json_response(Some(b"[1]".to_vec()));
    assert!(matches!(r, Ok(Response::BytesVec(b)) if b.bytes == b"[1]".to_vec()));
    let r = create_ok_json_response(None);
    assert!(matches!(r, Err(HttpError::PublicInternal500("result serialization failed"))));
    let base = BaseResponse::default();
    assert_eq!(base.status, 200);
    assert_eq!(base.content_type, "text/plain");
}

#[test]
fn request_context_flag() {
    let mut context = RequestContext { is_flatbuffers_: false };
    assert!(!context.is_flatbuffers());
    context.set_flatbuffers();
    assert!(context.is_flatbuffers());
}

#[test]
fn collection_names() {
    assert!(check_collection_name("log-lines").is_ok());
    assert!(check_collection_name(&"x".repeat(255)).is_ok());
    assert!(check_collection_name("x").is_ok());
    assert!(matches!(
        check_collection_name(&"x".repeat(256)),
        Err(HttpError::Generic400("collectionName cannot be > 255"))
    ));
    assert!(matches!(
        check_collection_name(""),
        Err(HttpError::Generic400("collectionName cannot be empty"))
    ));
}

#[test]
fn path_groups_are_url_decoded() {
    assert_eq!(id_only_group("log%20lines").0, "log lines");
    assert_eq!(id_only_group("plain").0, "plain");
    assert_eq!(id_only_group("a+b").0, "a+b");
    assert_eq!(id_only_group("%FF").0, "%FF");
    let g = id_with_name_group("c%2F1", "reader%21");
    assert_eq!(g.id, "c/1");
    assert_eq!(g.name, "reader!");
}

#[test]
fn query_parameters() {
    let params = query_params(Some("generationId=a%20b&x=1&broken&y=")).unwrap();
    assert_eq!(
        params,
        vec![
            ("generationId".to_string(), "a b".to_string()),
            ("x".to_string(), "1".to_string()),
            ("y".to_string(), "".to_string()),
        ]
    );
    assert_eq!(query_params(None).unwrap(), Vec::new());
    assert!(query_params(Some("a=%FF")).is_err());
}

#[test]
fn generation_id_stream_parameters() {
    let params = vec![
        ("generationId".to_string(), "AAAAAAAACm4=".to_string()),
        ("generationIdEncoding".to_string(), "base64".to_string()),
    ];
    let id = generation_id_stream_params(&params).unwrap().unwrap();
    assert_eq!(id.get_byte_array(), &[0, 0, 0, 0, 0, 0, 0x0a, 0x6e][..]);

    let params = vec![
        ("generationId".to_string(), "first".to_string()),
        ("generationId".to_string(), "last".to_string()),
    ];
    let id = generation_id_stream_params(&params).unwrap().unwrap();
    assert_eq!(id.get_byte_array(), b"last");

    assert!(generation_id_stream_params(&Vec::new()).unwrap().is_none());

    let params = vec![
        ("generationId".to_string(), "x".to_string()),
        ("generationIdEncoding".to_string(), "hex".to_string()),
    ];
    assert!(matches!(
        generation_id_stream_params(&params),
        Err(HttpError::Generic400("invalid encoding"))
    ));
    let params = vec![
        ("generationId".to_string(), "!!".to_string()),
        ("generationIdEncoding".to_string(), "base64".to_string()),
    ];
    assert!(matches!(
        generation_id_stream_params(&params),
        Err(HttpError::Generic400("invalid encoded value"))
    ));
    let params = vec![("generationId".to_string(), "x".repeat(256))];
    assert!(matches!(
        generation_id_stream_params(&params),
        Err(HttpError::Generic400("invalid generation_id"))
    ));
}

#[test]
fn generation_id_stream_answers() {
    let g1 = OwnedGenerationId::from_vec(vec![1]).unwrap();
    let g2 = OwnedGenerationId::from_vec(vec![2]).unwrap();
    assert!(!generation_id_stream_should_answer(&g1, Some(&g1), None));
    assert!(generation_id_stream_should_answer(&g2, Some(&g1), None));
    assert!(generation_id_stream_should_answer(&g2, None, Some(&g2)));
    assert!(!generation_id_stream_should_answer(&g1, None, Some(&g2)));
    assert!(!generation_id_stream_should_answer(&g1, None, None));
}

#[test]
fn generation_id_json() {
    let g = OwnedGenerationId::from_vec(vec![0xff, 1]).unwrap();
    let data = encoded_generation_id_data_encode(&g, StrSerializationType::Utf8);
    assert_eq!(data.value, "/wE=");
    assert_eq!(data.encoding, Some("base64".to_string()));
    let back = encoded_generation_id_data_into_generation_id(data).unwrap();
    assert_eq!(back.get_byte_array(), &[0xff, 1][..]);

    let bad = EncodedGenerationIdJsonData { value: "x".to_string(), encoding: Some("nope".to_string()) };
    assert!(matches!(
        encoded_generation_id_data_into_generation_id(bad),
        Err(HttpError::Generic400("invalid encoding"))
    ));
    let bad = EncodedGenerationIdJsonData { value: "x".to_string(), encoding: Some("base64".to_string()) };
    assert!(matches!(
        encoded_generation_id_data_into_generation_id(bad),
        Err(HttpError::Generic400("invalid serialization"))
    ));
    let long = EncodedGenerationIdJsonData { value: "x".repeat(256), encoding: None };
    assert!(matches!(
        encoded_generation_id_data_into_generation_id(long),
        Err(HttpError::Generic400("invalid generationId size"))
    ));
    assert!(encoded_generation_id_data_decode_opt(None).unwrap().is_none());
}

#[test]
fn key_json_round_trip() {
    let decoder = StringDecoder::new(StrSerializationType::Utf8);
    for bytes in [b"plain".to_vec(), vec![0xff, 0x00, 0x80]] {
        let k = OwnedCollectionKey::from_vec(bytes.clone()).unwrap();
        let data = EncodedKeyJsonData::encode(k);
        let back = data.decode(&decoder).unwrap();
        assert_eq!(back.get_byte_array(), &bytes[..]);
    }
    let v = EncodedKeyJsonData::encode_vec(vec![
        OwnedCollectionKey::from_vec(b"a".to_vec()).unwrap(),
        OwnedCollectionKey::from_vec(vec![0xfe]).unwrap(),
    ]);
    assert_eq!(v.len(), 2);
    assert_eq!(v[0].value, "a");
    assert_eq!(v[0].encoding, None);
    assert_eq!(v[1].value, "/g==");
}

#[test]
fn key_json_errors() {
    let decoder = StringDecoder::new(StrSerializationType::Utf8);
    let bad = EncodedKeyJsonData { value: "a".to_string(), encoding: Some("latin1".to_string()) };
    match bad.decode(&decoder) {
        Err(HttpError::GenericString400(m)) => {
            assert_eq!(m, r#"invalid encoding, allowed "base64" or default ("utf8")"#)
        }
        _ => panic!("expected an encoding error"),
    }
    let bad = EncodedKeyJsonData { value: "%%".to_string(), encoding: Some("base64".to_string()) };
    match bad.decode(&decoder) {
        Err(HttpError::GenericString400(m)) => assert_eq!(m, "invalid value, check encoding"),
        _ => panic!("expected a decoding error"),
    }
    let base64_decoder = StringDecoder::new(StrSerializationType::Base64);
    let data = EncodedKeyJsonData { value: "aGk=".to_string(), encoding: None };
    assert_eq!(data.decode(&base64_decoder).unwrap().get_byte_array(), b"hi");
}

#[test]
fn phantom_id_json() {
    let decoder = StringDecoder::new(StrSerializationType::Utf8);
    let p = OwnedPhantomId::from_vec(vec![1, 2]).unwrap();
    let data = EncodedPhantomIdJsonData::new(p, StrSerializationType::Base64);
    assert_eq!(data.value, "AQI=");
    let back = EncodedPhantomIdJsonData::decode_opt(Some(data), &decoder).unwrap().unwrap();
    assert_eq!(back.get_byte_array(), &[1, 2][..]);
    let empty = EncodedPhantomIdJsonData { value: String::new(), encoding: None };
    assert!(matches!(
        empty.decode(&decoder),
        Err(HttpError::Generic400("invalid phantomId, it cannot be empty"))
    ));
    let long = EncodedPhantomIdJsonData { value: "p".repeat(256), encoding: None };
    assert!(matches!(
        long.decode(&decoder),
        Err(HttpError::Generic400("invalid phantomId, length should be <= 255"))
    ));
    let bad = EncodedPhantomIdJsonData { value: "p".to_string(), encoding: Some("x".to_string()) };
    match bad.decode(&decoder) {
        Err(HttpError::GenericString400(m)) => {
            assert_eq!(m, r#"invalid phantomIdEncoding, allowed "base64" or default ("utf8")"#)
        }
        _ => panic!("expected an encoding error"),
    }
}

#[test]
fn value_json() {
    let v = EncodedValueJsonData::from(OwnedCollectionValue::new(b"42"));
    assert_eq!(v.value, "42");
    let back = v.into_collection_value().unwrap();
    assert_eq!(back.get_value(), b"42");
    let values = EncodedValueJsonData::encode_opt_vec(vec![None, Some(OwnedCollectionValue::new(&[0xff]))]);
    assert!(values[0].is_none());
    assert_eq!(values[1].as_ref().unwrap().value, "/w==");
    assert!(EncodedValueJsonData::decode_opt(None).unwrap().is_none());
    let bad = EncodedValueJsonData { value: "x".to_string(), encoding: Some("base64".to_string()) };
    assert!(matches!(
        EncodedValueJsonData::decode_opt(Some(bad)),
        Err(HttpError::Generic400("invalid serialization"))
    ));
}

#[test]
fn key_value_json() {
    let kv = KeyValue {
        key: OwnedCollectionKey::from_vec(b"k".to_vec()).unwrap(),
        value: OwnedCollectionValue::new(b"v"),
    };
    let data = KeyValueJsonData::from(kv);
    assert_eq!(data.key.value, "k");
    assert_eq!(data.value.value, "v");
}

#[test]
fn key_value_update_json() {
    let decoder = StringDecoder::new(StrSerializationType::Utf8);
    let data = KeyValueUpdateJsonData {
        key: EncodedKeyJsonData { value: "k".to_string(), encoding: None },
        if_not_present: None,
        value: Some(EncodedValueJsonData { value: "dg==".to_string(), encoding: Some("base64".to_string()) }),
    };
    let update = data.deserialize(&decoder).unwrap();
    assert_eq!(update.key.get_byte_array(), b"k");
    assert_eq!(update.value.unwrap().get_value(), b"v");
    assert!(!update.if_not_present);

    let data = KeyValueUpdateJsonData {
        key: EncodedKeyJsonData { value: "k".to_string(), encoding: None },
        if_not_present: Some(true),
        value: None,
    };
    let update = data.deserialize(&decoder).unwrap();
    assert!(update.value.is_none());
    assert!(update.if_not_present);
}

#[test]
fn diff_response_json() {
    let ok = DiffOk {
        from_generation_id: None,
        to_generation_id: OwnedGenerationId::from_vec(b"g2".to_vec()).unwrap(),
        items: vec![KeyValueDiff {
            key: OwnedCollectionKey::from_vec(b"k".to_vec()).unwrap(),
            from_value: None,
            intermediate_values: Vec::new(),
            to_value: Some(OwnedCollectionValue::new(b"v")),
        }],
        cursor_id: Some("c1".to_string()),
    };
    let data = DiffCollectionResponseJsonData::from(ok);
    assert_eq!(data.from_generation_id.value, "");
    assert_eq!(data.to_generation_id.value, "g2");
    assert_eq!(data.items.len(), 1);
    assert_eq!(data.items[0].key.value, "k");
    assert!(data.items[0].from_value.is_none());
    assert_eq!(data.items[0].to_value.as_ref().unwrap().value, "v");
    assert_eq!(data.cursor_id, Some("c1".to_string()));
}

#[test]
fn binary_fields() {
    assert!(matches!(
        flatbuffers_generation_id_to_owned_generation_id(None),
        Err(HttpError::GenericFlatbuffers400("empty generation id"))
    ));
    assert_eq!(
        flatbuffers_generation_id_to_owned_generation_id(Some(&[1, 2])).unwrap().get_byte_array(),
        &[1, 2][..]
    );
    assert!(matches!(
        flatbuffers_generation_id_to_owned_generation_id_opt(Some(&[0; 256])),
        Err(HttpError::GenericFlatbuffers400("invalid generation id"))
    ));
    assert!(flatbuffers_generation_id_to_owned_generation_id_opt(None).unwrap().is_none());
    assert!(matches!(
        flatbuffers_phantom_id_to_owned_phantom_id_opt(Some(&[])),
        Err(HttpError::GenericFlatbuffers400("invalid phantom id"))
    ));
    assert!(flatbuffers_phantom_id_to_owned_phantom_id_opt(Some(&[3])).unwrap().is_some());
}

#[test]
fn create_collection_requests() {
    let d = create_collection_request_from_json("logs".to_string(), true).unwrap();
    assert!(!d.is_flatbuffers);
    assert_eq!(d.collection_name, "logs");
    assert!(d.is_manual);
    match create_collection_request_from_json("ы".repeat(128), false) {
        Err(HttpError::Generic400(m)) => assert_eq!(m, "collectionName cannot be > 255"),
        _ => panic!("expected a too long name"),
    }
    let d = create_collection_request_from_flatbuffers(Some("x".repeat(255)), false).unwrap();
    assert!(d.is_flatbuffers);
    assert!(!d.is_manual);
    match create_collection_request_from_flatbuffers(None, false) {
        Err(HttpError::GenericFlatbuffers400(m)) => assert_eq!(m, "no collection_name"),
        _ => panic!("expected a missing name"),
    }
    match create_collection_request_from_flatbuffers(Some("x".repeat(256)), true) {
        Err(HttpError::Generic400(m)) => assert_eq!(m, "collectionName cannot be > 255"),
        _ => panic!("expected a too long name"),
    }
    match create_collection_request_from_flatbuffers(Some(String::new()), true) {
        Err(HttpError::Generic400(m)) => assert_eq!(m, "collectionName cannot be empty"),
        _ => panic!("expected an empty name"),
    }
}

#[test]
fn flatbuffers_bodies_go_to_their_handlers() {
    assert!(matches!(
        flatbuffers_route_for(RequestBodyKind::CreateCollection, Some("CreateCollection")),
        Ok(FlatbuffersRoute::CreateCollection)
    ));
    assert!(matches!(
        flatbuffers_route_for(RequestBodyKind::StartGeneration, None),
        Ok(FlatbuffersRoute::StartGeneration)
    ));
    match flatbuffers_route_for(RequestBodyKind::Other(7), Some("PutMany")) {
        Err(HttpError::InvalidFlatbuffers(m)) => {
            assert_eq!(m, "Unsupported flatbuffers request: PutMany")
        }
        _ => panic!("expected an unsupported body"),
    }
    match flatbuffers_route_for(RequestBodyKind::Other(42), None) {
        Err(HttpError::InvalidFlatbuffers(m)) => assert_eq!(m, "Unsupported flatbuffers request: #42"),
        _ => panic!("expected an unsupported body"),
    }
    assert_eq!(flatbuffers_request_data(Some(5u8)).unwrap(), 5u8);
    match flatbuffers_request_data::<u8>(None) {
        Err(HttpError::GenericFlatbuffers400(m)) => assert_eq!(m, "no request data"),
        _ => panic!("expected missing data"),
    }
}

#[test]
fn body_read_errors() {
    assert!(matches!(body_read_error_to_http_error(BodyReadError::Io, 10), HttpError::Generic400("io")));
    assert!(matches!(
        body_read_error_to_http_error(BodyReadError::SizeLimit, 33554432),
        HttpError::TooBigPayload(33554432)
    ));
    assert!(matches!(
        body_read_error_to_http_error(BodyReadError::Align, 1),
        HttpError::PublicInternal500("alignError")
    ));
}

#[test]
fn methods_are_checked() {
    assert!(allow_only_methods("POST", &["POST"]).is_ok());
    assert!(allow_only_methods("GET", &["POST", "GET"]).is_ok());
    assert!(matches!(allow_only_methods("PUT", &["POST", "GET"]), Err(HttpError::MethodNotAllowed)));
    assert!(matches!(allow_only_methods("post", &["POST"]), Err(HttpError::MethodNotAllowed)));
}

#[test]
fn create_collection_failures() {
    match create_collection_error_to_http(CreateCollectionFailure::AlreadyExist) {
        HttpError::Generic400(m) => assert_eq!(m, "collection with such id already exists"),
        _ => panic!("expected a 400"),
    }
    assert!(matches!(create_collection_error_to_http(CreateCollectionFailure::Other), HttpError::Unspecified));
}

#[test]
fn generation_id_stream_answer_falls_back() {
    let g = |b: &[u8]| OwnedGenerationId::from_vec(b.to_vec()).unwrap();
    let current = g(b"c");
    let asked = g(b"a");
    assert_eq!(generation_id_stream_answer(Some(g(b"n")), Some(&asked), &current).get_byte_array(), b"n");
    assert_eq!(generation_id_stream_answer(None, Some(&asked), &current).get_byte_array(), b"a");
    assert_eq!(generation_id_stream_answer(None, None, &current).get_byte_array(), b"c");
}

#[test]
fn percent_decoding_keeps_broken_escapes() {
    assert_eq!(id_only_group("%41%zz%4").0, "A%zz%4");
    assert_eq!(id_only_group("%4g%").0, "%4g%");
    assert_eq!(id_only_group("%c3%a9").0, "é");
}

#[test]
fn query_pairs_take_two_parts() {
    let params = query_params(Some("a=b=c&&=v&k")).unwrap();
    assert_eq!(
        params,
        vec![("a".to_string(), "b".to_string()), ("".to_string(), "v".to_string())]
    );
    assert_eq!(query_params(Some("")).unwrap(), Vec::new());
}

#[test]
fn error_details_are_json_escaped() {
    let (status, body) = map_http_err(HttpError::GenericString400("a\u{1}b\t\"\\é".to_string()), false);
    assert_eq!(status, 400);
    assert_eq!(json_body(body), "{\"error\":\"400\",\"details\":\"a\\u0001b\\t\\\"\\\\é\"}");
}

#[test]
fn generation_id_stream_waits_at_most_a_minute() {
    let mut wait = GenerationIdStreamWait::new();
    assert_eq!(wait.time_left_ms, 60000);
    assert!(matches!(
        wait.on_event(GenerationIdStreamEvent::Changed { elapsed_ms: 20000 }),
        GenerationIdStreamStep::LookAgain
    ));
    assert_eq!(wait.time_left_ms, 40000);
    assert!(matches!(
        wait.on_event(GenerationIdStreamEvent::Changed { elapsed_ms: 40000 }),
        GenerationIdStreamStep::GiveUp
    ));
    let mut wait = GenerationIdStreamWait::new();
    assert!(matches!(wait.on_event(GenerationIdStreamEvent::TimedOut), GenerationIdStreamStep::GiveUp));
}

#[test]
fn generation_id_stream_without_ids_answers_at_once() {
    let g = OwnedGenerationId::from_vec(b"g".to_vec()).unwrap();
    assert!(generation_id_stream_answers_at_once(None, None));
    assert!(!generation_id_stream_answers_at_once(Some(&g), None));
    assert!(!generation_id_stream_answers_at_once(None, Some(&g)));
}
