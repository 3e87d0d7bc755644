//! Response constructors, header handling, and error rendering.

use pingora_web::{
    bad_request, Body, Response, ResponseError, SimpleError, WebError,
};

#[test]
fn html_and_empty_and_bytes() {
    let res = Response::html(200, "<h1>ok</h1>");
    assert_eq!(res.status, 200);
    assert_eq!(
        res.headers.get("content-type").map(|v| v.as_str()),
        Some("text/html; charset=utf-8")
    );
    // content-length is set by App::handle, not here
    assert!(!res.headers.contains_key("content-length"));

    let res = Response::empty(204);
    assert_eq!(res.status, 204);
    assert!(!res.headers.contains_key("content-length"));

    let res = Response::bytes(201, vec![1, 2, 3]);
    assert_eq!(res.status, 201);
    assert!(!res.headers.contains_key("content-length"));
    match res.body {
        Body::Bytes(b) => assert_eq!(b, vec![1, 2, 3]),
        _ => panic!("expected bytes body"),
    }
}

#[test]
fn response_constructors() {
    let res = Response::text(200, "hello world");
    assert_eq!(
        res.headers.get("content-type").map(|v| v.as_str()),
        Some("text/plain; charset=utf-8")
    );
    // content-length is set by App::handle, not here
    assert!(!res.headers.contains_key("content-length"));

    let res = Response::stream(200, vec![b"chunk1".to_vec(), b"chunk2".to_vec()]);
    assert!(!res.headers.contains_key("content-length"));
    assert!(!res.headers.contains_key("transfer-encoding"));
}

#[test]
fn manual_headers_not_overridden() {
    let mut res = Response::text(200, "hello");
    res.set_header("content-length", "999");
    assert_eq!(
        res.headers.get("content-length").map(|v| v.as_str()),
        Some("999")
    );
}

#[test]
fn out_of_range_status_becomes_500() {
    assert_eq!(Response::new(42).status, 500);
    assert_eq!(Response::new(1000).status, 500);
    assert_eq!(Response::new(100).status, 100);
    assert_eq!(Response::new(999).status, 999);
}

#[test]
fn header_lookup_is_case_insensitive_and_insert_replaces() {
    let mut res = Response::new(200);
    res.set_header("X-Custom", "one");
    assert_eq!(res.headers.get("x-custom").map(|v| v.as_str()), Some("one"));
    assert_eq!(res.headers.get("X-CUSTOM").map(|v| v.as_str()), Some("one"));
    res.set_header("x-CUSTOM", "two");
    assert_eq!(res.headers.get("X-Custom").map(|v| v.as_str()), Some("two"));
    assert_eq!(res.headers.len(), 1);
    res.headers.remove("X-Custom");
    assert!(res.headers.get("x-custom").is_none());
}

#[test]
fn test_web_error_creation() {
    let simple_err = SimpleError::new(400, "Test error".to_string());
    let web_err = WebError::new(simple_err);

    assert_eq!(web_err.status_code(), 400);
    assert_eq!(web_err.message(), "Test error");
}

#[test]
fn test_web_error_from_conversion() {
    let simple_err = SimpleError::new(400, "Test error".to_string());
    let web_err: WebError = simple_err.into();

    assert_eq!(web_err.status_code(), 400);
}

#[test]
fn error_renders_as_json_object() {
    let res = bad_request("boom").into_response();
    assert_eq!(res.status, 400);
    assert_eq!(
        res.headers.get("content-type").map(|v| v.as_str()),
        Some("application/json")
    );
    match res.body {
        Body::Bytes(b) => assert_eq!(b, br#"{"error":"boom"}"#.to_vec()),
        _ => panic!("expected bytes body"),
    }
}

#[test]
fn error_message_is_json_escaped() {
    // would fail if the quoting step handed its argument back unchanged
    let res = WebError::from_parts(500, "he\"llo\\there".to_string()).into_response();
    match res.body {
        Body::Bytes(b) => assert_eq!(b, br#"{"error":"he\"llo\\there"}"#.to_vec()),
        _ => panic!("expected bytes body"),
    }
}
