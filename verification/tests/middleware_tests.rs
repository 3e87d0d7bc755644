//! Middleware composition: the onion order, short-circuiting, and the
//! request-id middleware.

use pingora_web::{
    compose, run_chain, unprocessable_entity, App, BeforeOutcome, BuiltinMiddleware, Handler,
    Method, Middleware, MwCtx, PanicRecoveryMiddleware, Request, RequestId, Response, Router,
    WebError,
};

/// A marker middleware: tags the request on the way in and the response on
/// the way out, so the execution order is visible in the headers.
struct Tag(&'static str);

impl Middleware for Tag {
    fn before_ok(&self, _req: Request, _out: BeforeOutcome) -> bool {
        true
    }

    fn after_ok(
        &self,
        _ctx: MwCtx,
        _input: Result<Response, WebError>,
        _out: Result<Response, WebError>,
    ) -> bool {
        true
    }

    fn before(&self, req: Request) -> BeforeOutcome {
        let cur = req
            .headers
            .get("x-in")
            .map(|v| v.clone())
            .unwrap_or_default();
        let mut req = req;
        req.set_header("x-in", &format!("{}{}", cur, self.0));
        BeforeOutcome::Proceed(req, MwCtx::Empty)
    }

    fn after(
        &self,
        _ctx: MwCtx,
        input: Result<Response, WebError>,
    ) -> Result<Response, WebError> {
        match input {
            Ok(mut res) => {
                let cur = res
                    .headers
                    .get("x-out")
                    .map(|v| v.clone())
                    .unwrap_or_default();
                res.set_header("x-out", &format!("{}{}", cur, self.0));
                Ok(res)
            },
            e => e,
        }
    }
}

/// A handler that copies the request's `x-in` header onto the response.
struct EchoIn;

impl Handler for EchoIn {
    fn handle_ok(&self, _req: Request, _out: Result<Response, WebError>) -> bool {
        true
    }

    fn handle(&self, req: Request) -> Result<Response, WebError> {
        let seen = req
            .headers
            .get("x-in")
            .map(|v| v.clone())
            .unwrap_or_default();
        let mut res = Response::text(200, "H");
        res.set_header("x-in", &seen);
        Ok(res)
    }
}

/// A handler asserting the request-id middleware ran before it.
struct OkHandler;

impl Handler for OkHandler {
    fn handle_ok(&self, _req: Request, _out: Result<Response, WebError>) -> bool {
        true
    }

    fn handle(&self, req: Request) -> Result<Response, WebError> {
        assert!(req.headers.contains_key("x-request-id"));
        Ok(Response::text(200, "H"))
    }
}

/// Rejects everything before the inner stages run.
struct Gate;

/// A middleware that must never be entered.
struct MustNotWrap;

/// A stack mixing the two middlewares above.
enum GateOrTrap {
    Gate(Gate),
    Trap(MustNotWrap),
}

impl Middleware for GateOrTrap {
    fn before_ok(&self, _req: Request, _out: BeforeOutcome) -> bool {
        true
    }

    fn after_ok(
        &self,
        _ctx: MwCtx,
        _input: Result<Response, WebError>,
        _out: Result<Response, WebError>,
    ) -> bool {
        true
    }

    fn before(&self, req: Request) -> BeforeOutcome {
        match self {
            GateOrTrap::Gate(_) => BeforeOutcome::ShortCircuit(Response::text(403, "no")),
            GateOrTrap::Trap(_) => {
                let _ = req;
                panic!("inner middleware must not be invoked");
            },
        }
    }

    fn after(
        &self,
        _ctx: MwCtx,
        input: Result<Response, WebError>,
    ) -> Result<Response, WebError> {
        input
    }
}

/// A terminal that must never run.
struct MustNotRun;

impl Handler for MustNotRun {
    fn handle_ok(&self, _req: Request, _out: Result<Response, WebError>) -> bool {
        true
    }

    fn handle(&self, _req: Request) -> Result<Response, WebError> {
        panic!("the terminal handler must not be invoked");
    }
}

/// Stores a number in the request-scoped store.
struct PutNum;

impl Middleware for PutNum {
    fn before_ok(&self, _req: Request, _out: BeforeOutcome) -> bool {
        true
    }

    fn after_ok(
        &self,
        _ctx: MwCtx,
        _input: Result<Response, WebError>,
        _out: Result<Response, WebError>,
    ) -> bool {
        true
    }

    fn before(&self, req: Request) -> BeforeOutcome {
        let mut req = req;
        req.set_request_share_data(std::sync::Arc::new(7u32));
        BeforeOutcome::Proceed(req, MwCtx::Empty)
    }

    fn after(
        &self,
        _ctx: MwCtx,
        input: Result<Response, WebError>,
    ) -> Result<Response, WebError> {
        input
    }
}

/// Reads the number back out of the request-scoped store.
struct ReadNum;

impl Handler for ReadNum {
    fn handle_ok(&self, _req: Request, _out: Result<Response, WebError>) -> bool {
        true
    }

    fn handle(&self, req: Request) -> Result<Response, WebError> {
        let n = req.get_request_share_data::<u32>().expect("n");
        Ok(Response::text(200, &format!("{}", *n)))
    }
}

#[test]
fn compose_runs_last_registered_outermost() {
    // registering A then B: B wraps outermost, so the order is
    // B-pre, A-pre, terminal, A-post, B-post
    let mws = vec![Tag("A"), Tag("B")];
    let res = run_chain(&mws, &EchoIn, Request::new(Method::Get, "/ok")).unwrap();
    assert_eq!(res.headers.get("x-in").map(|v| v.as_str()), Some("BA"));
    assert_eq!(res.headers.get("x-out").map(|v| v.as_str()), Some("AB"));
}

#[test]
fn middleware_order_and_request_id() {
    let mws = vec![RequestId::new()];
    let res = run_chain(&mws, &OkHandler, Request::new(Method::Get, "/ok")).unwrap();
    assert_eq!(res.status, 200);
    assert!(res.headers.contains_key("x-request-id"));
}

#[test]
fn request_id_keeps_inbound_value_and_stamps_response() {
    let mw = RequestId::new();
    let req = Request::new(Method::Get, "/x").header("x-request-id", "keep-me");
    match mw.before(req) {
        BeforeOutcome::Proceed(req2, MwCtx::Text(id)) => {
            assert_eq!(id, "keep-me");
            assert_eq!(
                req2.headers.get("x-request-id").map(|v| v.as_str()),
                Some("keep-me")
            );
            let out = mw.after(MwCtx::Text(id), Ok(Response::text(200, "ok"))).unwrap();
            assert_eq!(
                out.headers.get("x-request-id").map(|v| v.as_str()),
                Some("keep-me")
            );
        },
        _ => panic!("expected Proceed with a text context"),
    }
}

#[test]
fn request_id_respects_downstream_response_id() {
    let mw = RequestId::new();
    let downstream = Response::text(200, "ok").header("x-request-id", "mine");
    let out = mw
        .after(MwCtx::Text("outer".to_string()), Ok(downstream))
        .unwrap();
    assert_eq!(
        out.headers.get("x-request-id").map(|v| v.as_str()),
        Some("mine")
    );
}

#[test]
fn short_circuit_skips_inner_stages() {
    // Gate is registered last, so it is outermost and decides alone.
    let stack = vec![GateOrTrap::Trap(MustNotWrap), GateOrTrap::Gate(Gate)];
    let res = run_chain(&stack, &MustNotRun, Request::new(Method::Get, "/x")).unwrap();
    assert_eq!(res.status, 403);
}

#[test]
fn request_extensions_flow() {
    let mws = vec![PutNum];
    let res = run_chain(&mws, &ReadNum, Request::new(Method::Get, "/n")).unwrap();
    match res.body {
        pingora_web::Body::Bytes(b) => assert_eq!(b, b"7".to_vec()),
        _ => panic!("unexpected streaming body"),
    }
}

/// A handler reading a value out of the application-wide store.
struct UseCfg;

impl Handler for UseCfg {
    fn handle_ok(&self, _req: Request, _out: Result<Response, WebError>) -> bool {
        true
    }

    fn handle(&self, req: Request) -> Result<Response, WebError> {
        let msg = req
            .get_app_share_data::<String>()
            .expect("configuration present");
        Ok(Response::text(200, &msg))
    }
}

#[test]
fn app_data_available_in_handler() {
    let mut router: Router<UseCfg> = Router::new();
    router.get("/", UseCfg).unwrap();
    let app: App<BuiltinMiddleware, UseCfg> = App::new(router);
    app.set_app_share_data(std::sync::Arc::new("hello".to_string()));

    let res = app.handle(Request::new(Method::Get, "/"));
    match res.body {
        pingora_web::Body::Bytes(b) => assert_eq!(b, b"hello".to_vec()),
        _ => panic!("unexpected streaming body"),
    }
}

#[test]
fn test_normal_request_passes_through() {
    let mws = vec![BuiltinMiddleware::PanicRecovery(PanicRecoveryMiddleware::new())];
    let res = run_chain(&mws, &EchoIn, Request::new(Method::Get, "/test")).unwrap();
    assert_eq!(res.status, 200);
}

/// A handler that always fails with a typed error.
struct AlwaysFails;

impl Handler for AlwaysFails {
    fn handle_ok(&self, _req: Request, _out: Result<Response, WebError>) -> bool {
        true
    }

    fn handle(&self, _req: Request) -> Result<Response, WebError> {
        Err(unprocessable_entity("bad input"))
    }
}

#[test]
fn typed_handler_error_is_rendered_by_its_own_mapping() {
    let mut router: Router<AlwaysFails> = Router::new();
    router.post("/submit", AlwaysFails).unwrap();
    let app: App<BuiltinMiddleware, AlwaysFails> = App::new(router);

    let res = app.handle(Request::new(Method::Post, "/submit"));
    assert_eq!(res.status, 422);
    assert_eq!(
        res.headers.get("content-type").map(|v| v.as_str()),
        Some("application/json")
    );
    match res.body {
        pingora_web::Body::Bytes(b) => assert_eq!(b, br#"{"error":"bad input"}"#.to_vec()),
        _ => panic!("unexpected streaming body"),
    }
}

#[test]
fn compose_yields_a_handler() {
    let chain = compose(vec![Tag("A"), Tag("B")], EchoIn);
    let res = chain.handle(Request::new(Method::Get, "/ok")).unwrap();
    assert_eq!(res.headers.get("x-in").map(|v| v.as_str()), Some("BA"));
    assert_eq!(res.headers.get("x-out").map(|v| v.as_str()), Some("AB"));
}
