//! Request-id middleware: every request entering the pipeline gets an
//! `x-request-id` header (kept when the client sent a non-empty one, fresh
//! otherwise), and the response carries the same id unless a downstream
//! stage set one itself.

use vstd::prelude::*;

verus! {

use vstd::string::StrSliceExecFns;
use crate::error::WebError;
use crate::headers::{spec_contains, spec_get, spec_insert};
use crate::middleware::{BeforeOutcome, Middleware, MwCtx};
use crate::request::Request;
use crate::response::Response;
use crate::utils::request_id::{generate, RequestIdGen};

/// The header this middleware reads and writes.
pub open spec fn id_header() -> Seq<char> {
    "x-request-id"@
}

/// Middleware that assigns each request an id and echoes it on the
/// response. Owns its id generator.
pub struct RequestId {
    gen: RequestIdGen,
}

impl RequestId {
    /// A request-id middleware with a fresh generator.
    pub fn new() -> (r: RequestId) {
        RequestId { gen: RequestIdGen::new() }
    }
}

impl Default for RequestId {
    fn default() -> (r: RequestId) {
        RequestId { gen: RequestIdGen::new() }
    }
}

/// The id this middleware settles on: the inbound one when present and
/// non-empty, otherwise some fresh non-empty token.
pub open spec fn id_choice_ok(h: Seq<(Seq<char>, Seq<char>)>, id: Seq<char>) -> bool {
    &&& id.len() > 0
    &&& match spec_get(h, id_header()) {
        Option::Some(v) => v.len() > 0 ==> id == v,
        Option::None => true,
    }
}

/// All fields but the headers unchanged.
pub open spec fn same_but_headers(a: Request, b: Request) -> bool {
    &&& a.method == b.method
    &&& a.target == b.target
    &&& a.body == b.body
    &&& a.params == b.params
    &&& a.app_data == b.app_data
    &&& a.extensions == b.extensions
}

/// All fields but the headers unchanged, on responses.
pub open spec fn resp_same_but_headers(a: Response, b: Response) -> bool {
    &&& a.status == b.status
    &&& a.body == b.body
}

impl Middleware for RequestId {
    open spec fn before_ok(&self, req: Request, out: BeforeOutcome) -> bool {
        out matches BeforeOutcome::Proceed(r2, c) && c matches MwCtx::Text(id) && {
            &&& id_choice_ok(req.headers@, id@)
            &&& same_but_headers(req, r2)
            &&& r2.headers@ == spec_insert(req.headers@, id_header(), id@)
        }
    }

    open spec fn after_ok(
        &self,
        ctx: MwCtx,
        input: Result<Response, WebError>,
        out: Result<Response, WebError>,
    ) -> bool {
        match ctx {
            MwCtx::Text(id) => match input {
                Result::Ok(res) => if spec_contains(res.headers@, id_header()) {
                    out == Result::<Response, WebError>::Ok(res)
                } else {
                    out matches Result::Ok(res2) && resp_same_but_headers(res, res2)
                        && res2.headers@ == spec_insert(res.headers@, id_header(), id@)
                },
                Result::Err(_) => out == input,
            },
            _ => out == input,
        }
    }

    fn before(&self, req: Request) -> (out: BeforeOutcome) {
        let id: String = {
            let mut chosen: Option<String> = Option::None;
            match req.headers.get("x-request-id") {
                Option::Some(v) => {
                    if v.as_str().unicode_len() > 0 {
                        chosen = Option::Some(v.clone());
                    }
                },
                Option::None => {},
            }
            match chosen {
                Option::Some(v) => v,
                Option::None => generate(&self.gen),
            }
        };
        let mut req = req;
        req.set_header("x-request-id", id.as_str());
        BeforeOutcome::Proceed(req, MwCtx::Text(id))
    }

    fn after(&self, ctx: MwCtx, input: Result<Response, WebError>) -> (out: Result<
        Response,
        WebError,
    >) {
        match ctx {
            MwCtx::Text(id) => match input {
                Result::Ok(res) => {
                    if res.headers.contains_key("x-request-id") {
                        Result::Ok(res)
                    } else {
                        let mut res = res;
                        res.set_header("x-request-id", id.as_str());
                        Result::Ok(res)
                    }
                },
                Result::Err(e) => Result::Err(e),
            },
            _ => input,
        }
    }
}

} // verus!
