//! Fault-recovery middleware. Verified handlers cannot panic, so inside
//! this core the middleware is a pass-through; an adapter that runs
//! unverified handlers installs its fault boundary around the pipeline and
//! uses [`panic_to_error`] to turn a caught fault into the typed error this
//! middleware stands for.

use vstd::prelude::*;

verus! {

use vstd::string::StringExecFns;
use crate::error::WebError;
use crate::middleware::{BeforeOutcome, Middleware, MwCtx};
use crate::request::Request;
use crate::response::Response;

/// The last line of defense against faults in handlers: converts a caught
/// fault into a 500 error instead of letting it propagate.
pub struct PanicRecoveryMiddleware;

impl PanicRecoveryMiddleware {
    /// A panic-recovery middleware.
    pub fn new() -> (r: PanicRecoveryMiddleware) {
        PanicRecoveryMiddleware
    }
}

impl Default for PanicRecoveryMiddleware {
    fn default() -> (r: PanicRecoveryMiddleware) {
        PanicRecoveryMiddleware
    }
}

/// The typed error a caught fault becomes: a 500 whose message carries the
/// fault's text.
pub fn panic_to_error(msg: &str) -> (r: WebError)
    ensures
        r.status == 500,
        r.message@ == "Panic: "@ + msg@,
{
    let mut message = "Panic: ".to_owned();
    message.append(msg);
    WebError { status: 500, message }
}

impl Middleware for PanicRecoveryMiddleware {
    open spec fn before_ok(&self, req: Request, out: BeforeOutcome) -> bool {
        out == BeforeOutcome::Proceed(req, MwCtx::Empty)
    }

    open spec fn after_ok(
        &self,
        ctx: MwCtx,
        input: Result<Response, WebError>,
        out: Result<Response, WebError>,
    ) -> bool {
        out == input
    }

    fn before(&self, req: Request) -> (out: BeforeOutcome) {
        BeforeOutcome::Proceed(req, MwCtx::Empty)
    }

    fn after(&self, ctx: MwCtx, input: Result<Response, WebError>) -> (out: Result<
        Response,
        WebError,
    >) {
        input
    }
}

} // verus!
