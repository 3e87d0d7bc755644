//! Per-request observability middleware. In this core it is a pure
//! pass-through: it observes the request and the outcome and changes
//! neither; emitting the span itself belongs to the runtime adapter that
//! drives the pipeline, not to the dispatch logic.

use vstd::prelude::*;

verus! {

use crate::error::WebError;
use crate::middleware::{BeforeOutcome, Middleware, MwCtx};
use crate::request::Request;
use crate::response::Response;

/// Middleware that observes one request from entry to outcome; registered
/// last (outermost) in the default stack so it sees everything beneath it.
#[derive(Clone)]
pub struct TracingMiddleware;

impl TracingMiddleware {
    /// A tracing middleware.
    pub fn new() -> (r: TracingMiddleware) {
        TracingMiddleware
    }
}

impl Default for TracingMiddleware {
    fn default() -> (r: TracingMiddleware) {
        TracingMiddleware
    }
}

impl Middleware for TracingMiddleware {
    open spec fn before_ok(&self, req: Request, out: BeforeOutcome) -> bool {
        out == BeforeOutcome::Proceed(req, MwCtx::Empty)
    }

    open spec fn after_ok(
        &self,
        ctx: MwCtx,
        input: Result<Response, WebError>,
        out: Result<Response, WebError>,
    ) -> bool {
        out == input
    }

    fn before(&self, req: Request) -> (out: BeforeOutcome) {
        BeforeOutcome::Proceed(req, MwCtx::Empty)
    }

    fn after(&self, ctx: MwCtx, input: Result<Response, WebError>) -> (out: Result<
        Response,
        WebError,
    >) {
        input
    }
}

} // verus!
