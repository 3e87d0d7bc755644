//! End-to-end dispatch: routing outcomes, synthesized responses, request
//! ids, and header finalization.

use pingora_web::{
    App, Body, BuiltinMiddleware, Method, Request, Response, Router, TextHandler,
};

fn body_bytes(res: &Response) -> &[u8] {
    match &res.body {
        Body::Bytes(b) => b.as_slice(),
        _ => panic!("unexpected streaming body"),
    }
}

fn new_app(router: Router<TextHandler>) -> App<BuiltinMiddleware, TextHandler> {
    App::new(router)
}

#[test]
fn router_matches_and_params() {
    let mut router: Router<TextHandler> = Router::new();
    router.get("/hi/{name}", TextHandler::new(200, "Hello")).unwrap();
    let app = new_app(router);

    let res = app.handle(Request::new(Method::Get, "/hi/alice"));
    assert_eq!(res.status, 200);
    assert_eq!(body_bytes(&res), b"Hello");
}

#[test]
fn unrouted_path_gets_404() {
    let app = new_app(Router::new());
    let res = app.handle(Request::new(Method::Get, "/missing"));
    assert_eq!(res.status, 404);
    assert_eq!(body_bytes(&res), b"Not Found");
    assert!(res.headers.contains_key("x-request-id"));
    assert_eq!(
        res.headers.get("content-length").map(|v| v.as_str()),
        Some("9")
    );
}

#[test]
fn wrong_method_gets_405_with_allow() {
    let mut router: Router<TextHandler> = Router::new();
    router.post("/submit", TextHandler::new(200, "ok")).unwrap();
    let app = new_app(router);

    let res = app.handle(Request::new(Method::Get, "/submit"));
    assert_eq!(res.status, 405);
    assert_eq!(res.headers.get("allow").map(|v| v.as_str()), Some("POST"));
    assert_eq!(body_bytes(&res), b"Method Not Allowed");
}

#[test]
fn options_gets_204_with_normalized_allow() {
    let mut router: Router<TextHandler> = Router::new();
    router.post("/thing", TextHandler::new(200, "p")).unwrap();
    router.get("/thing", TextHandler::new(200, "g")).unwrap();
    let app = new_app(router);

    let res = app.handle(Request::new(Method::Options, "/thing"));
    assert_eq!(res.status, 204);
    assert_eq!(
        res.headers.get("allow").map(|v| v.as_str()),
        Some("GET, OPTIONS, POST")
    );
}

#[test]
fn head_request_reaches_get_handler() {
    let mut router: Router<TextHandler> = Router::new();
    router.get("/page", TextHandler::new(200, "page body")).unwrap();
    let app = new_app(router);

    let res = app.handle(Request::new(Method::Head, "/page"));
    // headers intact, content-length of the GET body
    assert_eq!(res.status, 200);
    assert_eq!(
        res.headers.get("content-length").map(|v| v.as_str()),
        Some("9")
    );
    // the transport suppresses the body bytes for HEAD
    match pingora_web::wire_body(Method::Head, res.body) {
        Body::Bytes(b) => assert!(b.is_empty()),
        _ => panic!("expected empty bytes"),
    }
}

#[test]
fn app_sets_content_length() {
    let mut router: Router<TextHandler> = Router::new();
    router.get("/text", TextHandler::new(200, "hello world")).unwrap();
    let app = new_app(router);

    let res = app.handle(Request::new(Method::Get, "/text"));
    assert_eq!(
        res.headers.get("content-length").map(|v| v.as_str()),
        Some("11")
    );
    assert_eq!(
        res.headers.get("content-type").map(|v| v.as_str()),
        Some("text/plain; charset=utf-8")
    );
    assert_eq!(body_bytes(&res), b"hello world");
}

#[test]
fn streamed_body_gets_chunked_transfer_encoding() {
    let mut res = Response::stream(200, vec![b"one".to_vec(), b"two".to_vec()]);
    pingora_web::finalize_response_headers(&mut res);
    assert_eq!(
        res.headers.get("transfer-encoding").map(|v| v.as_str()),
        Some("chunked")
    );
    assert!(!res.headers.contains_key("content-length"));
}

#[test]
fn app_respects_manual_content_length() {
    let mut res = Response::text(200, "hello");
    res.set_header("content-length", "999");
    pingora_web::finalize_response_headers(&mut res);
    assert_eq!(
        res.headers.get("content-length").map(|v| v.as_str()),
        Some("999")
    );
    assert!(!res.headers.contains_key("transfer-encoding"));
}

#[test]
fn response_carries_inbound_request_id() {
    let mut router: Router<TextHandler> = Router::new();
    router.get("/r", TextHandler::new(200, "ok")).unwrap();
    let app = new_app(router);

    let req = Request::new(Method::Get, "/r").header("x-request-id", "abc-123");
    let res = app.handle(req);
    assert_eq!(
        res.headers.get("x-request-id").map(|v| v.as_str()),
        Some("abc-123")
    );

    // without one inbound, a fresh non-empty id is assigned
    let res = app.handle(Request::new(Method::Get, "/r"));
    assert!(!res.headers.get("x-request-id").unwrap().is_empty());
}

#[test]
fn path_query_is_ignored_for_routing() {
    let mut router: Router<TextHandler> = Router::new();
    router.get("/q", TextHandler::new(200, "q")).unwrap();
    let app = new_app(router);

    let res = app.handle(Request::new(Method::Get, "/q?x=1&y=2"));
    assert_eq!(res.status, 200);
    assert_eq!(body_bytes(&res), b"q");
}

#[test]
fn explicit_options_route_wins_over_synthesis() {
    let mut router: Router<TextHandler> = Router::new();
    router
        .add(Method::Options, "/thing", TextHandler::new(200, "custom"))
        .unwrap();
    let app = new_app(router);

    let res = app.handle(Request::new(Method::Options, "/thing"));
    assert_eq!(res.status, 200);
    assert_eq!(body_bytes(&res), b"custom");
    assert!(!res.headers.contains_key("allow"));
}

#[test]
fn target_without_leading_slash_is_not_found() {
    let mut router: Router<TextHandler> = Router::new();
    router.get("/x", TextHandler::new(200, "x")).unwrap();
    let app = new_app(router);

    let res = app.handle(Request::new(Method::Get, "no-slash"));
    assert_eq!(res.status, 404);
}

#[test]
fn error_statuses_also_get_request_id_and_framing() {
    let app = new_app(Router::new());
    let res = app.handle(Request::new(Method::Options, "/anywhere"));
    assert_eq!(res.status, 204);
    assert_eq!(res.headers.get("allow").map(|v| v.as_str()), Some("OPTIONS"));
    assert!(res.headers.contains_key("x-request-id"));
    assert_eq!(
        res.headers.get("content-length").map(|v| v.as_str()),
        Some("0")
    );
}
