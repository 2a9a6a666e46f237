use diffbelt::http::errors::HttpError;
use diffbelt::http::validation::{allow_only_utf8_json_by_default, is_utf8_json_content_type};

#[test]
fn test_utf8_json_validation() {
    assert!(is_utf8_json_content_type("application/json"));
    assert!(is_utf8_json_content_type("application/json; charset=utf-8"));
    assert!(is_utf8_json_content_type("application/json;charset=utf-8"));

    assert!(!is_utf8_json_content_type("text/plain"));
    assert!(!is_utf8_json_content_type(
        "application/json; charset=abracadabra"
    ));
}

#[test]
fn content_type_check_ignores_case() {
    assert!(is_utf8_json_content_type("Application/JSON; Charset=UTF-8"));
}

#[test]
fn missing_content_type_is_accepted() {
    assert!(allow_only_utf8_json_by_default(None).is_ok());
    assert!(allow_only_utf8_json_by_default(Some("application/json")).is_ok());
}

#[test]
fn other_content_type_is_refused() {
    let r = allow_only_utf8_json_by_default(Some("text/plain"));
    match r {
        Err(HttpError::ContentTypeUnsupported(m)) => {
            assert_eq!(
                m,
                "supported Content-Types: application/json, supported charsets: utf-8"
            );
        }
        _ => panic!("expected ContentTypeUnsupported"),
    }
}
