//! Compression middleware: algorithm negotiation, eligibility rules, and
//! round-trip correctness of the gzip bodies.

use std::io::Read;

use flate2::read::GzDecoder;
use pingora_web::{
    run_chain, BeforeOutcome, Body, CompressionConfig, CompressionMiddleware, Method, Middleware,
    MwCtx, Request, Response, TextHandler,
};

/// Run the middleware around a canned response, like a one-handler chain.
fn drive(mw: &CompressionMiddleware, req: Request, response: Response) -> Response {
    match mw.before(req) {
        BeforeOutcome::Proceed(_, ctx) => mw.after(ctx, Ok(response)).unwrap(),
        _ => panic!("compression must not short-circuit"),
    }
}

fn gunzip(data: &[u8]) -> Vec<u8> {
    let mut decoder = GzDecoder::new(data);
    let mut out = Vec::new();
    decoder.read_to_end(&mut out).unwrap();
    out
}

#[test]
fn test_compresses_text_response() {
    let middleware = CompressionMiddleware::new();
    let large_text = "x".repeat(2000);
    let response = Response::text(200, &large_text);

    let req = Request::new(Method::Get, "/test").header("accept-encoding", "gzip");
    let result = drive(&middleware, req, response);

    assert_eq!(
        result.headers.get("content-encoding").map(|v| v.as_str()),
        Some("gzip")
    );
    assert_eq!(
        result.headers.get("vary").map(|v| v.as_str()),
        Some("Accept-Encoding")
    );
    assert!(!result.headers.contains_key("content-length"));

    match result.body {
        Body::Bytes(compressed) => {
            assert_eq!(gunzip(&compressed), large_text.as_bytes());
        },
        _ => panic!("expected bytes body"),
    }
}

#[test]
fn test_skips_small_response() {
    let config = CompressionConfig::new().min_size(1000);
    let middleware = CompressionMiddleware::with_config(config);
    let response = Response::text(200, "small");

    let req = Request::new(Method::Get, "/test").header("accept-encoding", "gzip");
    let result = drive(&middleware, req, response);

    assert!(!result.headers.contains_key("content-encoding"));
    match result.body {
        Body::Bytes(body) => assert_eq!(body, b"small".to_vec()),
        _ => panic!("expected bytes body"),
    }
}

#[test]
fn test_skips_unsupported_content_type() {
    let middleware = CompressionMiddleware::new();
    let response = Response::bytes(200, b"binary data".repeat(200));

    let req = Request::new(Method::Get, "/test").header("accept-encoding", "gzip");
    let result = drive(&middleware, req, response);

    // no content-type header and filtering is on: left alone
    assert!(!result.headers.contains_key("content-encoding"));
}

#[test]
fn test_skips_when_client_doesnt_support_gzip() {
    let middleware = CompressionMiddleware::new();
    let large_text = "x".repeat(2000);
    let response = Response::text(200, &large_text);

    let req = Request::new(Method::Get, "/test").header("accept-encoding", "deflate");
    let result = drive(&middleware, req, response);

    assert!(!result.headers.contains_key("content-encoding"));
    match result.body {
        Body::Bytes(body) => assert_eq!(body, large_text.into_bytes()),
        _ => panic!("expected bytes body"),
    }
}

#[test]
fn test_compresses_json_response() {
    let middleware = CompressionMiddleware::new();
    let json_text = format!("{{\"data\":\"{}\",\"status\":\"ok\"}}", "x".repeat(2000));
    let response =
        Response::bytes(200, json_text.into_bytes()).header("content-type", "application/json");

    let req = Request::new(Method::Get, "/api/data").header("accept-encoding", "gzip");
    let result = drive(&middleware, req, response);

    assert_eq!(
        result.headers.get("content-encoding").map(|v| v.as_str()),
        Some("gzip")
    );
    assert_eq!(
        result.headers.get("vary").map(|v| v.as_str()),
        Some("Accept-Encoding")
    );
}

#[test]
fn test_respects_existing_content_encoding() {
    let middleware = CompressionMiddleware::new();
    let large_text = "x".repeat(2000);
    let response = Response::text(200, &large_text).header("content-encoding", "br");

    let req = Request::new(Method::Get, "/test").header("accept-encoding", "gzip");
    let result = drive(&middleware, req, response);

    assert_eq!(
        result.headers.get("content-encoding").map(|v| v.as_str()),
        Some("br")
    );
}

#[test]
fn test_compress_all_types_when_filtering_disabled() {
    let config = CompressionConfig::new().compress_all_types();
    let middleware = CompressionMiddleware::with_config(config);
    let binary_data = b"binary data".repeat(200);
    let response = Response::bytes(200, binary_data.clone());

    let req = Request::new(Method::Get, "/binary").header("accept-encoding", "gzip");
    let result = drive(&middleware, req, response);

    assert_eq!(
        result.headers.get("content-encoding").map(|v| v.as_str()),
        Some("gzip")
    );
    assert_eq!(
        result.headers.get("vary").map(|v| v.as_str()),
        Some("Accept-Encoding")
    );
    match result.body {
        Body::Bytes(compressed) => assert_eq!(gunzip(&compressed), binary_data),
        _ => panic!("expected bytes body"),
    }
}

#[test]
fn test_content_type_filtering_enabled() {
    let config = CompressionConfig::new().filter_content_types(true);
    let middleware = CompressionMiddleware::with_config(config);
    let binary_data = b"binary data".repeat(200);
    let response = Response::bytes(200, binary_data.clone());

    let req = Request::new(Method::Get, "/binary").header("accept-encoding", "gzip");
    let result = drive(&middleware, req, response);

    assert!(!result.headers.contains_key("content-encoding"));
    match result.body {
        Body::Bytes(body) => assert_eq!(body, binary_data),
        _ => panic!("expected bytes body"),
    }
}

#[test]
fn streamed_body_is_compressed_chunk_by_chunk() {
    let middleware = CompressionMiddleware::new();
    let chunks = vec![b"hello ".repeat(100), b"world!".repeat(100)];
    let plain: Vec<u8> = chunks.concat();
    let response = Response::stream(200, chunks).header("content-type", "text/plain");

    let req = Request::new(Method::Get, "/stream").header("accept-encoding", "gzip");
    let result = drive(&middleware, req, response);

    assert_eq!(
        result.headers.get("content-encoding").map(|v| v.as_str()),
        Some("gzip")
    );
    match result.body {
        Body::Stream(out_chunks) => {
            let all: Vec<u8> = out_chunks.concat();
            assert_eq!(gunzip(&all), plain);
        },
        _ => panic!("expected a streamed body"),
    }
}

#[test]
fn accept_encoding_list_is_trimmed_and_case_insensitive() {
    let middleware = CompressionMiddleware::new();
    let large_text = "x".repeat(2000);

    for accept in ["deflate, GZIP", " gzip ", "br,*"] {
        let response = Response::text(200, &large_text);
        let req = Request::new(Method::Get, "/t").header("accept-encoding", accept);
        let result = drive(&middleware, req, response);
        assert_eq!(
            result.headers.get("content-encoding").map(|v| v.as_str()),
            Some("gzip"),
            "accept-encoding: {accept}"
        );
    }

    let response = Response::text(200, &large_text);
    let req = Request::new(Method::Get, "/t");
    let result = drive(&middleware, req, response);
    assert!(!result.headers.contains_key("content-encoding"));
}

#[test]
fn compression_through_a_full_chain() {
    let large_text = "y".repeat(2000);
    let mws = vec![CompressionMiddleware::new()];
    let handler = TextHandler::new(200, &large_text);
    let req = Request::new(Method::Get, "/big").header("accept-encoding", "gzip");
    let res = run_chain(&mws, &handler, req).unwrap();
    assert_eq!(
        res.headers.get("content-encoding").map(|v| v.as_str()),
        Some("gzip")
    );
    match res.body {
        Body::Bytes(compressed) => assert_eq!(gunzip(&compressed), large_text.as_bytes()),
        _ => panic!("expected bytes body"),
    }
}
