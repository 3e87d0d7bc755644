//! Limits middleware: rejects oversized requests before anything inside
//! the pipeline runs — path length (414), header count (431), single
//! header size (431), body size (413), checked in that order.
//!
//! The configured deadline (408 on timeout) needs a timer race, which a
//! synchronous core cannot hold; [`timeout_response`] is the response an
//! adapter racing the pipeline against a deadline must answer with when the
//! deadline wins.

use vstd::prelude::*;

verus! {

use vstd::string::{StringSliceAdditionalSpecFns, StrSliceExecFns};
use vstd::utf8::encode_utf8;
use crate::error::WebError;
use crate::handler::is_text_response;
use crate::middleware::{BeforeOutcome, Middleware, MwCtx};
use crate::request::{spec_path, Request};
use crate::response::Response;

/// Size and time limits enforced on each request.
#[derive(Clone)]
pub struct LimitsConfig {
    /// Deadline for the whole downstream call, in milliseconds; enforced by
    /// the adapter driving the pipeline.
    pub request_timeout_ms: u64,
    /// Largest accepted body, in bytes.
    pub max_body_size: usize,
    /// Longest accepted path, in characters.
    pub max_path_length: usize,
    /// Most headers accepted.
    pub max_headers: usize,
    /// Largest accepted single header (name plus value), in bytes.
    pub max_header_size: usize,
}

impl LimitsConfig {
    /// The default limits: 30 s, 1 MiB body, 2048-character path,
    /// 100 headers, 8 KiB per header.
    pub fn new() -> (r: LimitsConfig)
        ensures
            r == LimitsConfig::spec_default(),
    {
        LimitsConfig {
            request_timeout_ms: 30000,
            max_body_size: 1048576,
            max_path_length: 2048,
            max_headers: 100,
            max_header_size: 8192,
        }
    }

    /// The default limits, as a value.
    pub open spec fn spec_default() -> LimitsConfig {
        LimitsConfig {
            request_timeout_ms: 30000u64,
            max_body_size: 1048576usize,
            max_path_length: 2048usize,
            max_headers: 100usize,
            max_header_size: 8192usize,
        }
    }

    /// Set the downstream deadline, in milliseconds.
    pub fn request_timeout(self, ms: u64) -> (r: LimitsConfig)
        ensures
            r == (LimitsConfig { request_timeout_ms: ms, ..self }),
    {
        LimitsConfig { request_timeout_ms: ms, ..self }
    }

    /// Set the largest accepted body size, in bytes.
    pub fn max_body_size(self, size: usize) -> (r: LimitsConfig)
        ensures
            r == (LimitsConfig { max_body_size: size, ..self }),
    {
        LimitsConfig { max_body_size: size, ..self }
    }

    /// Set the longest accepted path, in characters.
    pub fn max_path_length(self, length: usize) -> (r: LimitsConfig)
        ensures
            r == (LimitsConfig { max_path_length: length, ..self }),
    {
        LimitsConfig { max_path_length: length, ..self }
    }

    /// Set the most headers accepted.
    pub fn max_headers(self, count: usize) -> (r: LimitsConfig)
        ensures
            r == (LimitsConfig { max_headers: count, ..self }),
    {
        LimitsConfig { max_headers: count, ..self }
    }

    /// Set the largest accepted single header, in bytes.
    pub fn max_header_size(self, size: usize) -> (r: LimitsConfig)
        ensures
            r == (LimitsConfig { max_header_size: size, ..self }),
    {
        LimitsConfig { max_header_size: size, ..self }
    }
}

impl Default for LimitsConfig {
    fn default() -> (r: LimitsConfig)
        ensures
            r == LimitsConfig::spec_default(),
    {
        LimitsConfig::new()
    }
}

/// The byte length of one header entry: name plus value.
pub open spec fn header_byte_len(e: (Seq<char>, Seq<char>)) -> int {
    encode_utf8(e.0).len() + encode_utf8(e.1).len() as int
}

/// The first limit a request breaks, as the status and body of the
/// rejection, or nothing when every limit is met. Checked in order: path
/// length, header count, single header size, body size.
pub open spec fn spec_limits_violation(cfg: LimitsConfig, req: Request) -> Option<(u16, Seq<char>)> {
    if spec_path(req.target@).len() > cfg.max_path_length {
        Option::Some((414u16, "URI Too Long"@))
    } else if req.headers@.len() > cfg.max_headers {
        Option::Some((431u16, "Request Header Fields Too Large"@))
    } else if exists|i: int|
        0 <= i < req.headers@.len() && header_byte_len(#[trigger] req.headers@[i])
            > cfg.max_header_size {
        Option::Some((431u16, "Request Header Fields Too Large"@))
    } else if req.body@.len() > cfg.max_body_size {
        Option::Some((413u16, "Payload Too Large"@))
    } else {
        Option::None
    }
}

/// Middleware enforcing the configured limits; an oversized request is
/// rejected before any inner stage runs.
pub struct LimitsMiddleware {
    pub config: LimitsConfig,
}

impl LimitsMiddleware {
    /// Limits middleware with the default configuration.
    pub fn new() -> (r: LimitsMiddleware)
        ensures
            r.config == LimitsConfig::spec_default(),
    {
        LimitsMiddleware { config: LimitsConfig::new() }
    }

    /// Limits middleware with the given configuration.
    pub fn with_config(config: LimitsConfig) -> (r: LimitsMiddleware)
        ensures
            r.config == config,
    {
        LimitsMiddleware { config }
    }
}

impl Default for LimitsMiddleware {
    fn default() -> (r: LimitsMiddleware)
        ensures
            r.config == LimitsConfig::spec_default(),
    {
        LimitsMiddleware::new()
    }
}

/// The response an adapter must answer with when the configured deadline
/// elapses before the pipeline completes.
pub fn timeout_response() -> (r: Response)
    ensures
        is_text_response(r, 408, "Request Timeout"@),
{
    Response::text(408, "Request Timeout")
}

/// A request over a limit is answered by the limits middleware alone:
/// whatever middlewares sit inside it and whatever the terminal handler
/// is, none of them runs, and the pipeline's outcome is the rejection the
/// broken limit dictates.
pub proof fn lemma_limits_reject_skips_handler<H: crate::handler::Handler>(
    mws: Seq<crate::middleware::BuiltinMiddleware>,
    lm: LimitsMiddleware,
    t: H,
    req: Request,
    out: Result<Response, WebError>,
)
    requires
        spec_limits_violation(lm.config, req) is Some,
        crate::middleware::chain_ok(
            mws.push(crate::middleware::BuiltinMiddleware::Limits(lm)),
            t,
            req,
            out,
        ),
    ensures
        out matches Result::Ok(res) && is_text_response(
            res,
            spec_limits_violation(lm.config, req)->Some_0.0,
            spec_limits_violation(lm.config, req)->Some_0.1,
        ),
{
    let whole = mws.push(crate::middleware::BuiltinMiddleware::Limits(lm));
    assert(whole.last() == crate::middleware::BuiltinMiddleware::Limits(lm));
    let b = choose|b: BeforeOutcome| #[trigger] whole.last().before_ok(req, b) && match b {
        BeforeOutcome::Proceed(r2, c) => exists|mid: Result<Response, WebError>|
            #[trigger] whole.last().after_ok(c, mid, out) && crate::middleware::chain_ok(
                whole.drop_last(),
                t,
                r2,
                mid,
            ),
        BeforeOutcome::ShortCircuit(res) => out == Result::<Response, WebError>::Ok(res),
        BeforeOutcome::Abort(e) => out == Result::<Response, WebError>::Err(e),
    };
}

impl Middleware for LimitsMiddleware {
    open spec fn before_ok(&self, req: Request, out: BeforeOutcome) -> bool {
        match spec_limits_violation(self.config, req) {
            Option::Some((status, msg)) => out matches BeforeOutcome::ShortCircuit(res)
                && is_text_response(res, status, msg),
            Option::None => out == BeforeOutcome::Proceed(req, MwCtx::Empty),
        }
    }

    open spec fn after_ok(
        &self,
        ctx: MwCtx,
        input: Result<Response, WebError>,
        out: Result<Response, WebError>,
    ) -> bool {
        out == input
    }

    fn before(&self, req: Request) -> (out: BeforeOutcome) {
        let path = req.path();
        if path.as_str().unicode_len() > self.config.max_path_length {
            return BeforeOutcome::ShortCircuit(Response::text(414, "URI Too Long"));
        }
        let hn = req.headers.len();
        if hn > self.config.max_headers {
            return BeforeOutcome::ShortCircuit(
                Response::text(431, "Request Header Fields Too Large"),
            );
        }
        let mut i: usize = 0;
        while i < hn
            invariant
                hn == req.headers@.len(),
                i <= hn,
                spec_path(req.target@).len() <= self.config.max_path_length,
                req.headers@.len() <= self.config.max_headers,
                forall|j: int|
                    0 <= j < i ==> header_byte_len(#[trigger] req.headers@[j])
                        <= self.config.max_header_size,
            decreases hn - i,
        {
            let e = req.headers.entry_at(i);
            let name_len = e.0.as_str().as_bytes().len();
            let value_len = e.1.as_str().as_bytes().len();
            if name_len > self.config.max_header_size || value_len > self.config.max_header_size
                - name_len {
                proof {
                    assert(header_byte_len(req.headers@[i as int]) > self.config.max_header_size);
                }
                return BeforeOutcome::ShortCircuit(
                    Response::text(431, "Request Header Fields Too Large"),
                );
            }
            i += 1;
        }
        if self.config.max_body_size < req.body.len() {
            return BeforeOutcome::ShortCircuit(Response::text(413, "Payload Too Large"));
        }
        BeforeOutcome::Proceed(req, MwCtx::Empty)
    }

    fn after(&self, ctx: MwCtx, input: Result<Response, WebError>) -> (out: Result<
        Response,
        WebError,
    >) {
        input
    }
}

} // verus!
