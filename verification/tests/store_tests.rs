//! Typed stores, request ids, fault mapping, and static-path resolution.

use std::sync::Arc;

use pingora_web::{
    generate, panic_to_error, wants_body, AppData, Method, Request, RequestIdGen, ResponseError,
    ServeDir,
};

#[test]
fn app_data_is_one_slot_per_type() {
    let data = AppData::new();
    assert!(data.provide_arc(Arc::new(7u32)).is_none());
    assert_eq!(data.get::<u32>().as_deref(), Some(&7));
    // a second value of the same type replaces the first and returns it
    let prev = data.provide_arc(Arc::new(8u32)).expect("previous value");
    assert_eq!(*prev, 7);
    assert_eq!(data.get::<u32>().as_deref(), Some(&8));
    // a different type has its own slot
    assert!(data.get::<String>().is_none());
    data.provide_arc(Arc::new("hello".to_string()));
    assert_eq!(data.get::<String>().as_deref(), Some(&"hello".to_string()));
    assert_eq!(data.get::<u32>().as_deref(), Some(&8));
    // removal empties exactly that slot
    let removed = data.remove::<u32>().expect("removed");
    assert_eq!(*removed, 8);
    assert!(data.get::<u32>().is_none());
    assert_eq!(data.get::<String>().as_deref(), Some(&"hello".to_string()));
}

#[test]
fn app_data_handles_share_one_store() {
    let data = AppData::new();
    let req = Request::new(Method::Get, "/").with_app_data(data.clone_handle());
    data.provide_arc(Arc::new(41u64));
    assert_eq!(req.get_app_share_data::<u64>().as_deref(), Some(&41));
    assert!(req.get_app_share_data::<u8>().is_none());
}

#[test]
fn request_store_is_per_request() {
    let mut req = Request::new(Method::Get, "/");
    assert!(req.get_request_share_data::<u32>().is_none());
    assert!(req.set_request_share_data(Arc::new(5u32)).is_none());
    let prev = req.set_request_share_data(Arc::new(6u32)).expect("prev");
    assert_eq!(*prev, 5);
    assert_eq!(req.get_request_share_data::<u32>().as_deref(), Some(&6));
}

#[test]
fn generated_ids_are_nonempty_and_distinct_in_process() {
    let gen = RequestIdGen::new();
    let a = generate(&gen);
    let b = generate(&gen);
    assert!(!a.is_empty());
    assert!(!b.is_empty());
    // the embedded counter makes ids from one generator distinct
    assert_ne!(a, b);
    assert!(a.contains('-'));
}

#[test]
fn panics_map_to_500_errors() {
    let err = panic_to_error("boom");
    assert_eq!(err.status_code(), 500);
    assert_eq!(err.message(), "Panic: boom");
    assert_eq!(err.into_response().status, 500);
}

#[test]
fn param_lookup_and_defaults() {
    let req = Request::new(Method::Get, "/x").with_params(vec![
        ("name".to_string(), "alice".to_string()),
        ("rest".to_string(), "a/b".to_string()),
    ]);
    assert_eq!(req.param("name"), Some("alice"));
    assert_eq!(req.param("rest"), Some("a/b"));
    assert_eq!(req.param("missing"), None);
    assert_eq!(req.param_or("missing", "dflt"), "dflt");
    assert_eq!(req.param_or("name", "dflt"), "alice");
}

#[test]
fn serve_dir_normalizes_traversal_attempts() {
    let sd = ServeDir::new("assets");
    let req = Request::new(Method::Get, "/assets/../../etc/passwd")
        .with_params(vec![("path".to_string(), "../../etc/passwd".to_string())]);
    assert_eq!(
        sd.candidate_path(&req).as_deref(),
        Some("assets/etc/passwd")
    );

    let req = Request::new(Method::Get, "/assets/css/./site.css")
        .with_params(vec![("path".to_string(), "css/./site.css".to_string())]);
    assert_eq!(
        sd.candidate_path(&req).as_deref(),
        Some("assets/css/site.css")
    );
}

#[test]
fn serve_dir_parameter_precedence_and_fallback() {
    let sd = ServeDir::new("www").with_param_name("p");
    let req = Request::new(Method::Get, "/w").with_params(vec![
        ("path".to_string(), "other.txt".to_string()),
        ("p".to_string(), "mine.txt".to_string()),
    ]);
    assert_eq!(sd.extract_rel_path(&req).as_deref(), Some("mine.txt"));

    // the conventional names come next
    let sd2 = ServeDir::new("www");
    let req2 =
        Request::new(Method::Get, "/w").with_params(vec![("file".to_string(), "f.txt".to_string())]);
    assert_eq!(sd2.extract_rel_path(&req2).as_deref(), Some("f.txt"));

    // a single oddly-named parameter is used as a last resort
    let req3 =
        Request::new(Method::Get, "/w").with_params(vec![("blob".to_string(), "b.txt".to_string())]);
    assert_eq!(sd2.extract_rel_path(&req3).as_deref(), Some("b.txt"));

    // no parameter: the fallback file, when configured
    let sd3 = ServeDir::new("www").with_fallback("index.html");
    let req4 = Request::new(Method::Get, "/w");
    assert_eq!(sd3.candidate_path(&req4).as_deref(), Some("www/index.html"));
    assert_eq!(sd2.candidate_path(&req4), None);
}

#[test]
fn body_read_hint_follows_headers() {
    let h = Request::new(Method::Post, "/").header("content-length", "11");
    assert!(wants_body(Method::Post, &h.headers));
    let h = Request::new(Method::Post, "/").header("content-length", "0");
    assert!(!wants_body(Method::Post, &h.headers));
    let h = Request::new(Method::Post, "/").header("content-length", "nonsense");
    assert!(!wants_body(Method::Post, &h.headers));
    let h = Request::new(Method::Post, "/").header("transfer-encoding", "chunked");
    assert!(wants_body(Method::Post, &h.headers));
    // HEAD never implies a body read
    assert!(!wants_body(Method::Head, &h.headers));
    let h = Request::new(Method::Post, "/");
    assert!(!wants_body(Method::Post, &h.headers));
}
