//! Limits middleware: each limit produces its status, valid requests pass,
//! and rejection happens before anything inside runs.

use pingora_web::{
    run_chain, timeout_response, BeforeOutcome, Handler, LimitsConfig, LimitsMiddleware, Method,
    Middleware, MwCtx, Request, Response, WebError,
};

fn rejection(mw: &LimitsMiddleware, req: Request) -> Option<u16> {
    match mw.before(req) {
        BeforeOutcome::ShortCircuit(res) => Some(res.status),
        BeforeOutcome::Proceed(..) => None,
        BeforeOutcome::Abort(_) => panic!("limits middleware never aborts"),
    }
}

#[test]
fn test_path_length_limit() {
    let config = LimitsConfig::new().max_path_length(10);
    let middleware = LimitsMiddleware::with_config(config);
    let req = Request::new(Method::Get, "/very-long-path-that-exceeds-limit");
    assert_eq!(rejection(&middleware, req), Some(414));
}

#[test]
fn test_body_size_limit() {
    let config = LimitsConfig::new().max_body_size(5);
    let middleware = LimitsMiddleware::with_config(config);
    let req = Request::new(Method::Post, "/test").with_body(b"too long body".to_vec());
    assert_eq!(rejection(&middleware, req), Some(413));
}

#[test]
fn test_header_count_limit() {
    let config = LimitsConfig::new().max_headers(2);
    let middleware = LimitsMiddleware::with_config(config);
    let req = Request::new(Method::Get, "/test")
        .header("header1", "value1")
        .header("header2", "value2")
        .header("header3", "value3");
    assert_eq!(rejection(&middleware, req), Some(431));
}

#[test]
fn test_header_size_limit() {
    let config = LimitsConfig::new().max_header_size(10);
    let middleware = LimitsMiddleware::with_config(config);
    let req = Request::new(Method::Get, "/test").header("x-long", "very-long-value");
    assert_eq!(rejection(&middleware, req), Some(431));
}

#[test]
fn test_valid_request_passes() {
    let middleware = LimitsMiddleware::with_config(LimitsConfig::new());
    let req = Request::new(Method::Get, "/test").with_body(b"small".to_vec());
    assert_eq!(rejection(&middleware, req), None);
}

/// A terminal that must never run.
struct MustNotRun;

impl Handler for MustNotRun {
    fn handle_ok(&self, _req: Request, _out: Result<Response, WebError>) -> bool {
        true
    }

    fn handle(&self, _req: Request) -> Result<Response, WebError> {
        panic!("the handler must not be invoked for an oversized request");
    }
}

#[test]
fn oversized_body_rejected_without_invoking_handler() {
    let config = LimitsConfig::new().max_body_size(4);
    let mws = vec![LimitsMiddleware::with_config(config)];
    let req = Request::new(Method::Post, "/upload").with_body(b"0123456789".to_vec());
    let res = run_chain(&mws, &MustNotRun, req).unwrap();
    assert_eq!(res.status, 413);
}

#[test]
fn checks_run_in_documented_order() {
    // a request breaking several limits is rejected by the first check
    let config = LimitsConfig::new().max_path_length(1).max_body_size(1);
    let middleware = LimitsMiddleware::with_config(config);
    let req = Request::new(Method::Post, "/long-path").with_body(b"also too long".to_vec());
    assert_eq!(rejection(&middleware, req), Some(414));
}

#[test]
fn deadline_rejection_is_408() {
    let res = timeout_response();
    assert_eq!(res.status, 408);
    match res.body {
        pingora_web::Body::Bytes(b) => assert_eq!(b, b"Request Timeout".to_vec()),
        _ => panic!("expected bytes body"),
    }
}

#[test]
fn after_passes_outcome_through() {
    let middleware = LimitsMiddleware::new();
    let out = middleware.after(MwCtx::Empty, Ok(Response::text(200, "ok"))).unwrap();
    assert_eq!(out.status, 200);
}
