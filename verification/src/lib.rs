//! A small, verified HTTP request-dispatch core: a method-aware path router,
//! a composable middleware pipeline, and the response-finalization rules that
//! tie them together.
//!
//! The library models requests and responses as plain values (methods, paths,
//! header lists, byte bodies) so that the routing and dispatch logic can be
//! stated and proved precisely. Transport concerns (listening, wire framing)
//! are left to an outer adapter layer.

pub mod data;
pub mod error;
pub mod handler;
pub mod headers;
pub mod logging;
pub mod method;
pub mod middleware;
pub mod request;
pub mod response;
pub mod router;
pub mod text;
pub mod utils;

pub use data::{AppData, Extensions};
pub use error::{
    bad_request, forbidden, internal_error, not_found, service_unavailable, unauthorized,
    unprocessable_entity, ResponseError, SimpleError, WebError,
};
pub use handler::{Handler, NotFoundHandler, TextHandler};
pub use headers::HeaderMap;
pub use logging::{Level, Logger, LoggingMiddleware, StdoutLogger};
pub use method::Method;
pub use middleware::compression_middleware::{
    CompressionAlgorithm, CompressionConfig, CompressionMiddleware,
};
pub use middleware::limits_middleware::{timeout_response, LimitsConfig, LimitsMiddleware};
pub use middleware::panic_recovery_middleware::{panic_to_error, PanicRecoveryMiddleware};
pub use middleware::request_id_middleware::RequestId;
pub use middleware::tracing_middleware::TracingMiddleware;
pub use middleware::{compose, run_chain, BeforeOutcome, BuiltinMiddleware, Chain, Middleware, MwCtx};
pub use request::{wants_body, FormParseError, Request};
pub use response::{Body, Response};
pub use router::{RouteError, Router};
pub use utils::request_id::{generate, RequestIdGen};
pub use utils::serve_dir::ServeDir;

use vstd::prelude::*;

verus! {

use crate::error::error_response_ok;
use crate::handler::is_text_response;
use crate::headers::{spec_contains, spec_insert};
use crate::middleware::chain_ok;
use crate::middleware::request_id_middleware::{id_choice_ok, id_header, same_but_headers};
use crate::request::{params_view, spec_path};
use crate::router::{any_match, find_ok, find_none_ok, spec_match, spec_path_parts};
use crate::text::{lower_seq, spec_dec, u64_to_dec};

/// `r1` is `r0` with the request id ensured: untouched when one is already
/// set, otherwise with `rid` added.
pub open spec fn id_applied(r0: Response, rid: Seq<char>, r1: Response) -> bool {
    if spec_contains(r0.headers@, id_header()) {
        r1 == r0
    } else {
        &&& r1.status == r0.status
        &&& r1.body == r0.body
        &&& r1.headers@ == spec_insert(r0.headers@, id_header(), rid)
    }
}

/// `r1` is `r0` with the framing header ensured: untouched when a
/// content-length or transfer-encoding is already set (a manual choice is
/// never overridden), otherwise with exactly one derived from the body
/// kind — buffered bodies get their decimal byte count as content-length,
/// streamed bodies get chunked transfer-encoding.
pub open spec fn finalize_applied(r0: Response, r1: Response) -> bool {
    if spec_contains(r0.headers@, "content-length"@) || spec_contains(
        r0.headers@,
        "transfer-encoding"@,
    ) {
        r1 == r0
    } else {
        &&& r1.status == r0.status
        &&& r1.body == r0.body
        &&& match r0.body {
            Body::Bytes(b) => r1.headers@ == spec_insert(
                r0.headers@,
                "content-length"@,
                spec_dec(b@.len() as int),
            ),
            Body::Stream(_) => r1.headers@ == spec_insert(
                r0.headers@,
                "transfer-encoding"@,
                "chunked"@,
            ),
        }
    }
}

/// How a pipeline outcome becomes the final response: an error is rendered
/// by its own mapping, then the request id and exactly one framing header
/// are ensured.
pub open spec fn rendered_ok(
    out: Result<Response, WebError>,
    rid: Seq<char>,
    res: Response,
) -> bool {
    exists|r0: Response, r1: Response|
        {
            &&& match out {
                Result::Ok(r) => r0 == r,
                Result::Err(e) => error_response_ok(e, r0),
            }
            &&& #[trigger] id_applied(r0, rid, r1)
            &&& finalize_applied(r1, res)
        }
}

/// Set exactly one framing header when none is present: content-length (the
/// decimal byte count) for buffered bodies, chunked transfer-encoding for
/// streamed ones; an existing setting is never overridden.
pub fn finalize_response_headers(res: &mut Response)
    ensures
        finalize_applied(*old(res), *final(res)),
{
    if res.headers.contains_key("content-length") || res.headers.contains_key(
        "transfer-encoding",
    ) {
        return ;
    }
    let blen: Option<usize> = match &res.body {
        Body::Bytes(b) => Option::Some(b.len()),
        Body::Stream(_) => Option::None,
    };
    match blen {
        Option::Some(n) => {
            let s = u64_to_dec(n as u64);
            res.headers.insert("content-length", s);
        },
        Option::None => {
            res.headers.insert("transfer-encoding", "chunked".to_owned());
        },
    }
}

/// When no framing header was set by hand, finalization sets exactly one:
/// a buffered body leaves with a content-length and no transfer-encoding,
/// a streamed body with a chunked transfer-encoding and no content-length.
pub proof fn lemma_finalize_sets_exactly_one(r0: Response, r1: Response)
    requires
        finalize_applied(r0, r1),
        !spec_contains(r0.headers@, "content-length"@),
        !spec_contains(r0.headers@, "transfer-encoding"@),
    ensures
        spec_contains(r1.headers@, "content-length"@) <==> r0.body is Bytes,
        spec_contains(r1.headers@, "transfer-encoding"@) <==> r0.body is Stream,
{
    assert(!crate::headers::key_eq("content-length"@, "transfer-encoding"@)) by {
        reveal_strlit("content-length");
        reveal_strlit("transfer-encoding");
        assert(lower_seq("content-length"@).len() == 14);
        assert(lower_seq("transfer-encoding"@).len() == 17);
    }
    match r0.body {
        Body::Bytes(b) => {
            crate::headers::lemma_insert_get(
                r0.headers@,
                "content-length"@,
                spec_dec(b@.len() as int),
            );
            crate::headers::lemma_insert_other(
                r0.headers@,
                "content-length"@,
                spec_dec(b@.len() as int),
                "transfer-encoding"@,
            );
        },
        Body::Stream(_) => {
            crate::headers::lemma_insert_get(r0.headers@, "transfer-encoding"@, "chunked"@);
            crate::headers::lemma_insert_other(
                r0.headers@,
                "transfer-encoding"@,
                "chunked"@,
                "content-length"@,
            );
        },
    }
}

/// The body bytes the transport may write for this method: none for a HEAD
/// request (its response must keep the headers of the corresponding GET but
/// omit the body), the response's own body otherwise.
pub fn wire_body(method: Method, body: Body) -> (r: Body)
    ensures
        method is Head ==> (r matches Body::Bytes(b) && b@ == Seq::<u8>::empty()),
        !(method is Head) ==> r == body,
{
    match method {
        Method::Head => Body::Bytes(Vec::new()),
        _ => body,
    }
}

/// Ranks strictly increase: sorted in the normalized method order, no
/// duplicates.
pub open spec fn methods_sorted(ms: Seq<Method>) -> bool {
    forall|a: int, b: int|
        0 <= a < b < ms.len() ==> (#[trigger] ms[a]).spec_rank() < (#[trigger] ms[b]).spec_rank()
}

/// Does some route for `m` match this path?
pub open spec fn allowed_spec<H>(routes: Seq<router::Route<H>>, path: Seq<char>, m: Method) -> bool {
    match spec_path_parts(path) {
        Option::Some(parts) => any_match(routes, m, parts),
        Option::None => false,
    }
}

/// `ms` is the normalized `Allow` list for this path: each method with a
/// matching route (plus OPTIONS itself when asked for), in sorted order,
/// without duplicates.
pub open spec fn allow_set_ok<H>(
    routes: Seq<router::Route<H>>,
    path: Seq<char>,
    include_options: bool,
    ms: Seq<Method>,
) -> bool {
    &&& methods_sorted(ms)
    &&& forall|m: Method|
        ms.contains(m) <==> (allowed_spec(routes, path, m) || (include_options && m
            == Method::Options))
}

/// The comma-space-joined method list of an `Allow` header.
pub open spec fn spec_allow_line(ms: Seq<Method>) -> Seq<char>
    decreases ms.len(),
{
    if ms.len() == 0 {
        Seq::<char>::empty()
    } else if ms.len() == 1 {
        ms[0].spec_name()
    } else {
        spec_allow_line(ms.drop_last()) + ", "@ + ms.last().spec_name()
    }
}

/// Join method names with a comma and space.
fn allow_line(ms: &Vec<Method>) -> (r: String)
    ensures
        r@ == spec_allow_line(ms@),
{
    let mut acc = String::new();
    let mut k: usize = 0;
    proof {
        assert(ms@.take(0) =~= Seq::<Method>::empty());
    }
    while k < ms.len()
        invariant
            k <= ms@.len(),
            acc@ == spec_allow_line(ms@.take(k as int)),
        decreases ms@.len() - k,
    {
        if k > 0 {
            acc.append(", ");
        }
        acc.append(ms[k].as_str());
        proof {
            let now = ms@.take(k + 1);
            assert(now.drop_last() =~= ms@.take(k as int));
            assert(now.last() == ms@[k as int]);
            if k == 0 {
                assert(acc@ =~= spec_allow_line(now));
            } else {
                assert(acc@ =~= spec_allow_line(ms@.take(k as int)) + ", "@
                    + ms@[k as int].spec_name());
            }
        }
        k += 1;
    }
    proof {
        assert(ms@.take(ms@.len() as int) =~= ms@);
    }
    acc
}

/// Is this method in the list?
fn method_vec_contains(ms: &Vec<Method>, m: Method) -> (r: bool)
    ensures
        r == ms@.contains(m),
{
    let mut i: usize = 0;
    while i < ms.len()
        invariant
            i <= ms@.len(),
            forall|j: int| 0 <= j < i ==> ms@[j] != m,
        decreases ms@.len() - i,
    {
        if ms[i] == m {
            return true;
        }
        i += 1;
    }
    proof {
        if ms@.contains(m) {
            let w = choose|w: int| 0 <= w < ms@.len() && ms@[w] == m;
        }
    }
    false
}

/// The OPTIONS `Allow` set: the given sorted method list with OPTIONS
/// united in, still sorted and duplicate-free.
fn methods_with_options(allowed: &Vec<Method>) -> (r: Vec<Method>)
    requires
        methods_sorted(allowed@),
    ensures
        methods_sorted(r@),
        forall|m: Method| r@.contains(m) <==> (allowed@.contains(m) || m == Method::Options),
{
    let all: [Method; 9] = [
        Method::Connect,
        Method::Delete,
        Method::Get,
        Method::Head,
        Method::Options,
        Method::Patch,
        Method::Post,
        Method::Put,
        Method::Trace,
    ];
    let mut out: Vec<Method> = Vec::new();
    let mut k: usize = 0;
    while k < 9
        invariant
            k <= 9,
            all@ =~= seq![
                Method::Connect,
                Method::Delete,
                Method::Get,
                Method::Head,
                Method::Options,
                Method::Patch,
                Method::Post,
                Method::Put,
                Method::Trace,
            ],
            forall|a: int, b: int|
                0 <= a < b < out@.len() ==> (#[trigger] out@[a]).spec_rank() < (
                #[trigger] out@[b]).spec_rank(),
            forall|a: int| 0 <= a < out@.len() ==> (#[trigger] out@[a]).spec_rank() < k,
            forall|m: Method|
                m.spec_rank() < k ==> (out@.contains(m) <==> (allowed@.contains(m) || m
                    == Method::Options)),
            forall|m: Method| m.spec_rank() >= k ==> !out@.contains(m),
        decreases 9 - k,
    {
        let m = all[k];
        proof {
            assert(all@[k as int] == m);
            assert(m.spec_rank() == k as int);
        }
        let keep = if k == 4 {
            true
        } else {
            method_vec_contains(allowed, m)
        };
        let ghost out0 = out@;
        if keep {
            out.push(m);
            proof {
                assert(out@ =~= out0.push(m));
                assert(m == Method::Options <==> m.spec_rank() == 4);
                assert forall|mm: Method| mm.spec_rank() < k + 1 implies (out@.contains(mm) <==> (
                allowed@.contains(mm) || mm == Method::Options)) by {
                    if mm.spec_rank() < k as int {
                        if out0.contains(mm) {
                            let w = choose|w: int| 0 <= w < out0.len() && out0[w] == mm;
                            assert(out@[w] == mm);
                            assert(out@.contains(mm));
                        }
                        if out@.contains(mm) {
                            let w = choose|w: int| 0 <= w < out@.len() && out@[w] == mm;
                            if w < out0.len() {
                                assert(out0.contains(mm));
                            } else {
                                assert(mm == m);
                                assert(false);
                            }
                        }
                    } else {
                        assert(mm == m) by {
                            method_rank_injective(mm, m);
                        }
                        assert(out@[out@.len() - 1] == m);
                        assert(out@.contains(m));
                    }
                }
                assert forall|mm: Method| mm.spec_rank() >= k + 1 implies !out@.contains(mm) by {
                    if out@.contains(mm) {
                        let w = choose|w: int| 0 <= w < out@.len() && out@[w] == mm;
                        if w < out0.len() {
                            assert(out0.contains(mm));
                        }
                    }
                }
            }
        } else {
            proof {
                assert(m != Method::Options);
                assert forall|mm: Method| mm.spec_rank() < k + 1 implies (out@.contains(mm) <==> (
                allowed@.contains(mm) || mm == Method::Options)) by {
                    if mm.spec_rank() == k as int {
                        assert(mm == m) by {
                            method_rank_injective(mm, m);
                        }
                        assert(!allowed@.contains(m));
                        assert(!out@.contains(m));
                    }
                }
            }
        }
        k += 1;
    }
    proof {
        assert forall|m: Method| out@.contains(m) <==> (allowed@.contains(m) || m
            == Method::Options) by {
            assert(m.spec_rank() < 9);
        }
    }
    out
}

/// Two methods with one rank are one method.
proof fn method_rank_injective(a: Method, b: Method)
    requires
        a.spec_rank() == b.spec_rank(),
    ensures
        a == b,
{
}

/// The application: a router, a middleware stack, the application-wide
/// store, and the orchestrator-level request-id source.
pub struct App<M, H> {
    pub router: Router<H>,
    pub middlewares: Vec<M>,
    pub app_data: AppData,
    pub id_gen: RequestIdGen,
}

/// The fixed headers of the synthesized OPTIONS and 405 responses before
/// their `Allow` header: just the plain-text content type.
pub open spec fn synth_headers() -> Seq<(Seq<char>, Seq<char>)> {
    Seq::<(Seq<char>, Seq<char>)>::empty().push(("content-type"@, "text/plain; charset=utf-8"@))
}

/// The matched-route outcome: some best route for the (possibly
/// HEAD-fallback) method was found; the request, enriched with the bound
/// parameters and the application store, went through the whole middleware
/// pipeline around that route's handler, and the outcome was rendered.
pub open spec fn dispatch_case_matched<M: Middleware, H: Handler>(
    app: App<M, H>,
    req1: Request,
    rid: Seq<char>,
    res: Response,
) -> bool {
    exists|h: H, params: Seq<(Seq<char>, Seq<char>)>|
        {
            &&& #[trigger] find_ok(app.router.routes@, req1.method, spec_path(req1.target@), h, params)
            &&& exists|req2: Request, out: Result<Response, WebError>|
                {
                    &&& req2.method == req1.method
                    &&& req2.target == req1.target
                    &&& req2.headers == req1.headers
                    &&& req2.body == req1.body
                    &&& req2.extensions == req1.extensions
                    &&& params_view(req2.params@) == params
                    &&& req2.app_data == Option::Some(app.app_data)
                    &&& #[trigger] chain_ok(app.middlewares@, h, req2, out)
                    &&& rendered_ok(out, rid, res)
                }
        }
}

/// The synthesized OPTIONS outcome: 204, empty body, and an `Allow` header
/// listing every method with a route here plus OPTIONS itself, normalized;
/// no middleware runs.
pub open spec fn dispatch_case_options<M, H>(
    app: App<M, H>,
    req1: Request,
    rid: Seq<char>,
    res: Response,
) -> bool {
    exists|ms: Seq<Method>, r0: Response|
        #![trigger allow_set_ok(app.router.routes@, spec_path(req1.target@), true, ms), rendered_ok(Result::<Response, WebError>::Ok(r0), rid, res)]
        {
            &&& allow_set_ok(app.router.routes@, spec_path(req1.target@), true, ms)
            &&& r0.status == 204
            &&& r0.body matches Body::Bytes(b) && b@ == Seq::<u8>::empty()
            &&& r0.headers@ == spec_insert(synth_headers(), "allow"@, spec_allow_line(ms))
            &&& rendered_ok(Result::<Response, WebError>::Ok(r0), rid, res)
        }
}

/// The method-not-allowed outcome: 405 with an `Allow` header listing the
/// methods that do have a route here; no middleware runs.
pub open spec fn dispatch_case_not_allowed<M, H>(
    app: App<M, H>,
    req1: Request,
    rid: Seq<char>,
    res: Response,
) -> bool {
    exists|ms: Seq<Method>, r0: Response|
        #![trigger allow_set_ok(app.router.routes@, spec_path(req1.target@), false, ms), rendered_ok(Result::<Response, WebError>::Ok(r0), rid, res)]
        {
            &&& allow_set_ok(app.router.routes@, spec_path(req1.target@), false, ms)
            &&& ms.len() > 0
            &&& r0.status == 405
            &&& r0.body matches Body::Bytes(b) && b@ == vstd::utf8::encode_utf8(
                "Method Not Allowed"@,
            )
            &&& r0.headers@ == spec_insert(synth_headers(), "allow"@, spec_allow_line(ms))
            &&& rendered_ok(Result::<Response, WebError>::Ok(r0), rid, res)
        }
}

/// The not-found outcome: the default 404 handler's response, rendered;
/// no middleware runs.
pub open spec fn dispatch_case_not_found(req1: Request, rid: Seq<char>, res: Response) -> bool {
    exists|r0: Response|
        #[trigger] is_text_response(r0, 404, "Not Found"@) && rendered_ok(
            Result::<Response, WebError>::Ok(r0),
            rid,
            res,
        )
}

/// Whether routing can serve this request: some route matches its method,
/// or it is a HEAD request and some GET route matches.
pub open spec fn can_match<M, H>(app: App<M, H>, req1: Request) -> bool {
    match spec_path_parts(spec_path(req1.target@)) {
        Option::Some(parts) => any_match(app.router.routes@, req1.method, parts) || (req1.method
            is Head && any_match(app.router.routes@, Method::Get, parts)),
        Option::None => false,
    }
}

/// Whether any method at all has a route matching this request's path.
pub open spec fn some_method_matches<M, H>(app: App<M, H>, req1: Request) -> bool {
    exists|m: Method| #[trigger] allowed_spec(app.router.routes@, spec_path(req1.target@), m)
}

/// The whole dispatch contract: a request id is settled (the inbound one
/// when present and non-empty, a fresh one otherwise) and stamped on the
/// request; then exactly one of the four outcomes happens — a matched
/// route runs under the middleware pipeline, or OPTIONS/405/404 is
/// synthesized without it — and the response carries the id and exactly
/// one framing header.
pub open spec fn dispatch_ok<M: Middleware, H: Handler>(
    app: App<M, H>,
    req: Request,
    res: Response,
) -> bool {
    exists|rid: Seq<char>, req1: Request|
        #![trigger id_choice_ok(req.headers@, rid), same_but_headers(req, req1)]
        {
            &&& id_choice_ok(req.headers@, rid)
            &&& same_but_headers(req, req1)
            &&& req1.headers@ == (if spec_contains(req.headers@, id_header()) {
                req.headers@
            } else {
                spec_insert(req.headers@, id_header(), rid)
            })
            &&& if can_match(app, req1) {
                dispatch_case_matched(app, req1, rid, res)
            } else if req1.method is Options {
                dispatch_case_options(app, req1, rid, res)
            } else if some_method_matches(app, req1) {
                dispatch_case_not_allowed(app, req1, rid, res)
            } else {
                dispatch_case_not_found(req1, rid, res)
            }
        }
}

impl<M: Middleware, H: Handler> App<M, H> {
    /// An application around a router, with no middleware installed and an
    /// empty application store.
    pub fn new(router: Router<H>) -> (r: App<M, H>)
        ensures
            r.router == router,
            r.middlewares@ == Seq::<M>::empty(),
    {
        let r = App {
            router,
            middlewares: Vec::new(),
            app_data: AppData::new(),
            id_gen: RequestIdGen::new(),
        };
        proof {
            assert(r.middlewares@ =~= Seq::<M>::empty());
        }
        r
    }

    /// Install a middleware; it wraps everything registered before it.
    pub fn use_middleware(&mut self, middleware: M)
        ensures
            final(self).middlewares@ == old(self).middlewares@.push(middleware),
            final(self).router == old(self).router,
            final(self).app_data == old(self).app_data,
            final(self).id_gen == old(self).id_gen,
    {
        self.middlewares.push(middleware);
    }

    /// Register a handler under a method and pattern (see `Router::add`).
    pub fn add(&mut self, method: Method, pattern: &str, handler: H) -> (r: Result<
        (),
        RouteError,
    >)
        ensures
            final(self).middlewares == old(self).middlewares,
            final(self).app_data == old(self).app_data,
            final(self).id_gen == old(self).id_gen,
            match r {
                Result::Ok(_) => {
                    &&& final(self).router.routes@.len() == old(self).router.routes@.len() + 1
                    &&& final(self).router.routes@.drop_last() == old(self).router.routes@
                    &&& final(self).router.routes@.last().method == method
                    &&& final(self).router.routes@.last().handler == handler
                },
                Result::Err(_) => final(self).router.routes@ == old(self).router.routes@,
            },
    {
        self.router.add(method, pattern, handler)
    }

    /// Register a handler for GET.
    pub fn get(&mut self, pattern: &str, handler: H) -> (r: Result<(), RouteError>)
        ensures
            final(self).middlewares == old(self).middlewares,
            final(self).app_data == old(self).app_data,
            final(self).id_gen == old(self).id_gen,
            match r {
                Result::Ok(_) => {
                    &&& final(self).router.routes@.len() == old(self).router.routes@.len() + 1
                    &&& final(self).router.routes@.drop_last() == old(self).router.routes@
                    &&& final(self).router.routes@.last().method == Method::Get
                    &&& final(self).router.routes@.last().handler == handler
                },
                Result::Err(_) => final(self).router.routes@ == old(self).router.routes@,
            },
    {
        self.router.add(Method::Get, pattern, handler)
    }

    /// Register a handler for POST.
    pub fn post(&mut self, pattern: &str, handler: H) -> (r: Result<(), RouteError>)
        ensures
            final(self).middlewares == old(self).middlewares,
            final(self).app_data == old(self).app_data,
            final(self).id_gen == old(self).id_gen,
            match r {
                Result::Ok(_) => {
                    &&& final(self).router.routes@.len() == old(self).router.routes@.len() + 1
                    &&& final(self).router.routes@.drop_last() == old(self).router.routes@
                    &&& final(self).router.routes@.last().method == Method::Post
                    &&& final(self).router.routes@.last().handler == handler
                },
                Result::Err(_) => final(self).router.routes@ == old(self).router.routes@,
            },
    {
        self.router.add(Method::Post, pattern, handler)
    }

    /// Store an application-wide value under its type; every request sees
    /// it. Returns the previous occupant of that type's slot, if any.
    pub fn set_app_share_data<T: Send + Sync + 'static>(&self, value: std::sync::Arc<T>) -> Option<
        std::sync::Arc<T>,
    > {
        self.app_data.provide_arc(value)
    }

    /// Dispatch one request end to end: settle a request id, route, run the
    /// middleware pipeline around the matched handler (or synthesize the
    /// OPTIONS/405/404 outcome), render errors, and finalize headers. Never
    /// fails outward.
    pub fn handle(&self, req: Request) -> (res: Response)
        ensures
            dispatch_ok(*self, req, res),
            spec_contains(res.headers@, id_header()),
            spec_contains(res.headers@, "content-length"@) || spec_contains(
                res.headers@,
                "transfer-encoding"@,
            ),
    {
        let rid: String = {
            let mut chosen: Option<String> = Option::None;
            match req.headers.get("x-request-id") {
                Option::Some(v) => {
                    if v.as_str().unicode_len() > 0 {
                        chosen = Option::Some(v.clone());
                    }
                },
                Option::None => {},
            }
            match chosen {
                Option::Some(v) => v,
                Option::None => generate(&self.id_gen),
            }
        };
        let ghost req0 = req;
        let mut req = req;
        let had_id = req.headers.contains_key("x-request-id");
        if !had_id {
            req.set_header("x-request-id", rid.as_str());
        }
        let ghost req1 = req;
        proof {
            assert(id_choice_ok(req0.headers@, rid@));
            assert(same_but_headers(req0, req1));
        }
        let path = req.path();
        let found = self.router.find(req.method, path.as_str());
        match found {
            Option::Some((h, params)) => {
                let ghost gh = *h;
                let ghost gparams = crate::router::pv(params@);
                let req2 = req.with_params(params).with_app_data(self.app_data.clone_handle());
                let ghost greq2 = req2;
                let out = run_chain(&self.middlewares, h, req2);
                let ghost gout = out;
                let mut res = match out {
                    Result::Ok(r) => r,
                    Result::Err(e) => e.into_response(),
                };
                let ghost gr0 = res;
                if !res.headers.contains_key("x-request-id") {
                    res.set_header("x-request-id", rid.as_str());
                }
                let ghost gr1 = res;
                finalize_response_headers(&mut res);
                proof {
                    assert(params_view(greq2.params@) == gparams);
                    assert(id_applied(gr0, rid@, gr1));
                    assert(finalize_applied(gr1, res));
                    assert(rendered_ok(gout, rid@, res));
                    assert(find_ok(
                        self.router.routes@,
                        req1.method,
                        spec_path(req1.target@),
                        gh,
                        gparams,
                    ));
                    lemma_find_implies_can_match(*self, req1, gh, gparams);
                    assert(dispatch_case_matched(*self, req1, rid@, res));
                    assert(dispatch_ok(*self, req0, res));
                    lemma_response_has_id(gr0, rid@, gr1, res);
                }
                res
            },
            Option::None => {
                let allowed = self.router.allowed_methods(path.as_str());
                if req.method == Method::Options {
                    let ms = methods_with_options(&allowed);
                    let line = allow_line(&ms);
                    let mut r0 = Response::text(204, "");
                    r0.set_header("allow", line.as_str());
                    let ghost gr0 = r0;
                    let mut res = r0;
                    if !res.headers.contains_key("x-request-id") {
                        res.set_header("x-request-id", rid.as_str());
                    }
                    let ghost gr1 = res;
                    finalize_response_headers(&mut res);
                    proof {
                        reveal_strlit("");
                        assert(vstd::utf8::encode_utf8(""@) =~= Seq::<u8>::empty());
                        assert(gr0.headers@ =~= spec_insert(
                            synth_headers(),
                            "allow"@,
                            spec_allow_line(ms@),
                        ));
                        assert(allow_set_ok(
                            self.router.routes@,
                            spec_path(req1.target@),
                            true,
                            ms@,
                        ));
                        assert(id_applied(gr0, rid@, gr1));
                        assert(finalize_applied(gr1, res));
                        assert(rendered_ok(Result::<Response, WebError>::Ok(gr0), rid@, res));
                        assert(dispatch_case_options(*self, req1, rid@, res));
                        lemma_none_no_match(*self, req1);
                        assert(dispatch_ok(*self, req0, res));
                        lemma_response_has_id(gr0, rid@, gr1, res);
                    }
                    res
                } else if allowed.len() > 0 {
                    let line = allow_line(&allowed);
                    let mut r0 = Response::text(405, "Method Not Allowed");
                    r0.set_header("allow", line.as_str());
                    let ghost gr0 = r0;
                    let mut res = r0;
                    if !res.headers.contains_key("x-request-id") {
                        res.set_header("x-request-id", rid.as_str());
                    }
                    let ghost gr1 = res;
                    finalize_response_headers(&mut res);
                    proof {
                        assert(gr0.headers@ =~= spec_insert(
                            synth_headers(),
                            "allow"@,
                            spec_allow_line(allowed@),
                        ));
                        assert(allow_set_ok(
                            self.router.routes@,
                            spec_path(req1.target@),
                            false,
                            allowed@,
                        ));
                        assert(allowed@.contains(allowed@[0]));
                        assert(allowed_spec(self.router.routes@, spec_path(req1.target@), allowed@[0]));
                        assert(some_method_matches(*self, req1));
                        assert(id_applied(gr0, rid@, gr1));
                        assert(finalize_applied(gr1, res));
                        assert(rendered_ok(Result::<Response, WebError>::Ok(gr0), rid@, res));
                        assert(dispatch_case_not_allowed(*self, req1, rid@, res));
                        lemma_none_no_match(*self, req1);
                        assert(dispatch_ok(*self, req0, res));
                        lemma_response_has_id(gr0, rid@, gr1, res);
                    }
                    res
                } else {
                    let nf = NotFoundHandler;
                    let out = nf.handle(req);
                    let mut res = match out {
                        Result::Ok(r) => r,
                        Result::Err(e) => e.into_response(),
                    };
                    let ghost gr0 = res;
                    if !res.headers.contains_key("x-request-id") {
                        res.set_header("x-request-id", rid.as_str());
                    }
                    let ghost gr1 = res;
                    finalize_response_headers(&mut res);
                    proof {
                        assert(id_applied(gr0, rid@, gr1));
                        assert(finalize_applied(gr1, res));
                        assert(rendered_ok(Result::<Response, WebError>::Ok(gr0), rid@, res));
                        assert(dispatch_case_not_found(req1, rid@, res));
                        lemma_none_no_match(*self, req1);
                        assert forall|m: Method| !allowed_spec(
                            #[trigger] self.router.routes@,
                            spec_path(req1.target@),
                            m,
                        ) by {
                            if allowed_spec(self.router.routes@, spec_path(req1.target@), m) {
                                assert(allowed@.contains(m));
                            }
                        }
                        assert(!some_method_matches(*self, req1));
                        assert(dispatch_ok(*self, req0, res));
                        lemma_response_has_id(gr0, rid@, gr1, res);
                    }
                    res
                }
            },
        }
    }
}

/// A successful lookup implies the request is servable by routing.
proof fn lemma_find_implies_can_match<M: Middleware, H: Handler>(
    app: App<M, H>,
    req1: Request,
    h: H,
    params: Seq<(Seq<char>, Seq<char>)>,
)
    requires
        find_ok(app.router.routes@, req1.method, spec_path(req1.target@), h, params),
    ensures
        can_match(app, req1),
{
    let path = spec_path(req1.target@);
    let parts = spec_path_parts(path)->Some_0;
    let routes = app.router.routes@;
    if !any_match(routes, req1.method, parts) {
        assert(crate::router::find_match_ok(routes, Method::Get, parts, h, params));
        let i = choose|i: int|
            0 <= i < routes.len() && routes[i].method == Method::Get && (#[trigger] spec_match(
                routes[i].segs@,
                parts,
            )) == Option::Some(params);
        assert(any_match(routes, Method::Get, parts));
        assert(req1.method is Head);
    }
}

/// A failed lookup means routing cannot serve the request.
proof fn lemma_none_no_match<M: Middleware, H: Handler>(app: App<M, H>, req1: Request)
    requires
        find_none_ok(app.router.routes@, req1.method, spec_path(req1.target@)),
    ensures
        !can_match(app, req1),
{
}

/// After the id step and the finalize step, the response carries the id
/// and at least one framing header.
proof fn lemma_response_has_id(r0: Response, rid: Seq<char>, r1: Response, res: Response)
    requires
        id_applied(r0, rid, r1),
        finalize_applied(r1, res),
    ensures
        spec_contains(res.headers@, id_header()),
        spec_contains(res.headers@, "content-length"@) || spec_contains(
            res.headers@,
            "transfer-encoding"@,
        ),
{
    assert(spec_contains(r1.headers@, id_header())) by {
        if spec_contains(r0.headers@, id_header()) {
        } else {
            crate::headers::lemma_insert_get(r0.headers@, id_header(), rid);
        }
    }
    lemma_distinct_framing_keys();
    if spec_contains(r1.headers@, "content-length"@) || spec_contains(
        r1.headers@,
        "transfer-encoding"@,
    ) {
    } else {
        match r1.body {
            Body::Bytes(b) => {
                crate::headers::lemma_insert_get(
                    r1.headers@,
                    "content-length"@,
                    spec_dec(b@.len() as int),
                );
                crate::headers::lemma_insert_other(
                    r1.headers@,
                    "content-length"@,
                    spec_dec(b@.len() as int),
                    id_header(),
                );
            },
            Body::Stream(_) => {
                crate::headers::lemma_insert_get(r1.headers@, "transfer-encoding"@, "chunked"@);
                crate::headers::lemma_insert_other(
                    r1.headers@,
                    "transfer-encoding"@,
                    "chunked"@,
                    id_header(),
                );
            },
        }
    }
}

/// The framing header names and the id header name are pairwise distinct
/// under case folding.
proof fn lemma_distinct_framing_keys()
    ensures
        !crate::headers::key_eq("content-length"@, id_header()),
        !crate::headers::key_eq("transfer-encoding"@, id_header()),
{
    reveal_strlit("content-length");
    reveal_strlit("transfer-encoding");
    reveal_strlit("x-request-id");
    assert(lower_seq("content-length"@).len() == 14);
    assert(lower_seq("transfer-encoding"@).len() == 17);
    assert(lower_seq("x-request-id"@).len() == 12);
}

} // verus!
