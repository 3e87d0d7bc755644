//! Routing: pattern matching, parameter binding, precedence, conflicts,
//! and the allowed-method set.

use pingora_web::{Method, RouteError, Router, TextHandler};

fn params_get<'a>(params: &'a [(String, String)], name: &str) -> Option<&'a str> {
    params
        .iter()
        .find(|p| p.0 == name)
        .map(|p| p.1.as_str())
}

#[test]
fn matchit_basic_param() {
    let mut r: Router<TextHandler> = Router::new();
    r.get("/hi/{name}", TextHandler::new(200, "hi")).unwrap();

    let (h, params) = r.find(Method::Get, "/hi/alice").expect("found");
    assert_eq!(h.status, 200);
    assert_eq!(params_get(&params, "name"), Some("alice"));
}

#[test]
fn find_binds_all_captured_segments() {
    let mut r: Router<TextHandler> = Router::new();
    r.add(Method::Get, "/users/{id}/posts/{post}", TextHandler::new(200, "p"))
        .unwrap();

    let (_, params) = r.find(Method::Get, "/users/7/posts/42").expect("found");
    assert_eq!(params_get(&params, "id"), Some("7"));
    assert_eq!(params_get(&params, "post"), Some("42"));
    assert!(r.find(Method::Get, "/users/7/posts").is_none());
    assert!(r.find(Method::Post, "/users/7/posts/42").is_none());
}

#[test]
fn wildcard_captures_rest_of_path() {
    let mut r: Router<TextHandler> = Router::new();
    r.get("/assets/{*path}", TextHandler::new(200, "f")).unwrap();

    let (_, params) = r.find(Method::Get, "/assets/css/site.css").expect("found");
    assert_eq!(params_get(&params, "path"), Some("css/site.css"));
    // the wildcard needs a non-empty remainder
    assert!(r.find(Method::Get, "/assets").is_none());
    assert!(r.find(Method::Get, "/assets/").is_none());
}

#[test]
fn static_beats_param_beats_wildcard() {
    let mut r: Router<TextHandler> = Router::new();
    r.get("/x/{name}", TextHandler::new(200, "param")).unwrap();
    r.get("/x/fixed", TextHandler::new(200, "static")).unwrap();
    r.get("/x/{*rest}", TextHandler::new(200, "wild")).unwrap();

    let (h, _) = r.find(Method::Get, "/x/fixed").expect("found");
    assert_eq!(h.body, "static");
    let (h, _) = r.find(Method::Get, "/x/other").expect("found");
    assert_eq!(h.body, "param");
    let (h, _) = r.find(Method::Get, "/x/a/b").expect("found");
    assert_eq!(h.body, "wild");
}

#[test]
fn head_falls_back_to_get_route() {
    let mut r: Router<TextHandler> = Router::new();
    r.get("/page", TextHandler::new(200, "body")).unwrap();

    let (h, _) = r.find(Method::Head, "/page").expect("HEAD should reuse GET");
    assert_eq!(h.body, "body");

    // an explicit HEAD route wins over the fallback
    let mut r2: Router<TextHandler> = Router::new();
    r2.get("/page", TextHandler::new(200, "get")).unwrap();
    r2.add(Method::Head, "/page", TextHandler::new(200, "head")).unwrap();
    let (h, _) = r2.find(Method::Head, "/page").expect("found");
    assert_eq!(h.body, "head");
}

#[test]
fn conflicting_patterns_are_rejected_at_registration() {
    let mut r: Router<TextHandler> = Router::new();
    r.get("/a/{x}", TextHandler::new(200, "1")).unwrap();
    // same shape, different capture name: a conflict
    let e = r.get("/a/{y}", TextHandler::new(200, "2")).unwrap_err();
    assert!(matches!(e, RouteError::Conflict));
    // same pattern under another method is fine
    r.post("/a/{x}", TextHandler::new(200, "3")).unwrap();
    // a different literal is fine
    r.get("/a/b", TextHandler::new(200, "4")).unwrap();
}

#[test]
fn malformed_patterns_are_rejected() {
    let mut r: Router<TextHandler> = Router::new();
    assert!(matches!(
        r.get("no-leading-slash", TextHandler::new(200, "x")),
        Err(RouteError::InvalidPattern)
    ));
    assert!(matches!(
        r.get("/a/{}", TextHandler::new(200, "x")),
        Err(RouteError::InvalidPattern)
    ));
    assert!(matches!(
        r.get("/{*rest}/tail", TextHandler::new(200, "x")),
        Err(RouteError::InvalidPattern)
    ));
    assert!(matches!(
        r.get("/half{brace", TextHandler::new(200, "x")),
        Err(RouteError::InvalidPattern)
    ));
}

#[test]
fn allowed_methods_is_sorted_and_deduplicated() {
    let mut r: Router<TextHandler> = Router::new();
    r.post("/thing", TextHandler::new(200, "p")).unwrap();
    r.get("/thing", TextHandler::new(200, "g")).unwrap();
    r.add(Method::Delete, "/thing", TextHandler::new(200, "d")).unwrap();

    let ms = r.allowed_methods("/thing");
    assert_eq!(ms, vec![Method::Delete, Method::Get, Method::Post]);
    assert!(r.allowed_methods("/nothing-here").is_empty());
}
