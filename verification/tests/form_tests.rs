//! Form-body parsing: urlencoded pairs, percent decoding, and rejections.

use pingora_web::{FormParseError, Method, Request};

fn pairs_get<'a>(pairs: &'a [(String, String)], name: &str) -> Option<&'a str> {
    pairs.iter().find(|p| p.0 == name).map(|p| p.1.as_str())
}

#[test]
fn test_parse_form_simple() {
    let req = Request::new(Method::Post, "/form")
        .header("content-type", "application/x-www-form-urlencoded")
        .with_body(b"name=John&email=john@example.com&age=30".to_vec());

    let form = req.parse_form().expect("parse form");
    assert_eq!(pairs_get(&form, "name"), Some("John"));
    assert_eq!(pairs_get(&form, "email"), Some("john@example.com"));
    assert_eq!(pairs_get(&form, "age"), Some("30"));
}

#[test]
fn test_parse_form_invalid_content_type() {
    let req = Request::new(Method::Post, "/login")
        .header("content-type", "application/json")
        .with_body(br#"{"username": "alice"}"#.to_vec());

    let result = req.parse_form();
    assert!(result.is_err());
    match result.unwrap_err() {
        FormParseError::InvalidContentType(ct) => assert_eq!(ct, "application/json"),
        _ => panic!("expected InvalidContentType error"),
    }
}

#[test]
fn test_urlencoded_special_characters() {
    let req = Request::new(Method::Post, "/form")
        .header("content-type", "application/x-www-form-urlencoded")
        .with_body(b"message=Hello%20World%21&symbol=%26%3D%3F".to_vec());

    let form = req.parse_form().expect("parse form");
    assert_eq!(pairs_get(&form, "message"), Some("Hello World!"));
    assert_eq!(pairs_get(&form, "symbol"), Some("&=?"));
}

#[test]
fn plus_decodes_to_space_and_pairs_keep_order() {
    let req = Request::new(Method::Post, "/form")
        .header("content-type", "application/x-www-form-urlencoded")
        .with_body(b"a=1+2&&b&c=%zz".to_vec());

    let form = req.parse_form().expect("parse form");
    // empty pieces are skipped; a piece without `=` keeps an empty value;
    // a `%` without two hex digits stays as it is
    assert_eq!(form.len(), 3);
    assert_eq!(form[0], ("a".to_string(), "1 2".to_string()));
    assert_eq!(form[1], ("b".to_string(), "".to_string()));
    assert_eq!(form[2], ("c".to_string(), "%zz".to_string()));
}

#[test]
fn missing_content_type_is_rejected_with_empty_name() {
    let req = Request::new(Method::Post, "/form").with_body(b"a=1".to_vec());
    match req.parse_form().unwrap_err() {
        FormParseError::InvalidContentType(ct) => assert_eq!(ct, ""),
        _ => panic!("expected InvalidContentType error"),
    }
}

#[test]
fn invalid_utf8_body_is_rejected() {
    let req = Request::new(Method::Post, "/form")
        .header("content-type", "application/x-www-form-urlencoded")
        .with_body(vec![0xff, 0xfe, b'=', b'1']);
    assert!(matches!(req.parse_form().unwrap_err(), FormParseError::Utf8Error));
}

#[test]
fn percent_escapes_can_encode_multibyte_text() {
    let req = Request::new(Method::Post, "/form")
        .header("content-type", "application/x-www-form-urlencoded")
        .with_body(b"word=na%C3%AFve".to_vec());
    let form = req.parse_form().expect("parse form");
    assert_eq!(pairs_get(&form, "word"), Some("na\u{ef}ve"));
}

#[test]
fn test_parse_form_urlencoded() {
    let req = Request::new(Method::Post, "/login")
        .header("content-type", "application/x-www-form-urlencoded")
        .with_body(b"username=alice&password=secret123".to_vec());

    let form = req.parse_form().expect("parse form");
    assert_eq!(pairs_get(&form, "username"), Some("alice"));
    assert_eq!(pairs_get(&form, "password"), Some("secret123"));
}
