//! The middleware pipeline: each middleware contributes a `before` step
//! (observe or rewrite the request, or short-circuit) and an `after` step
//! (observe or rewrite the outcome). Composition nests the last-registered
//! middleware outermost, so its `before` runs first and its `after` last.

pub mod compression_middleware;
pub mod limits_middleware;
pub mod panic_recovery_middleware;
pub mod request_id_middleware;
pub mod tracing_middleware;

use vstd::prelude::*;

verus! {

use crate::error::WebError;
use crate::handler::Handler;
use crate::middleware::compression_middleware::CompressionAlgorithm;
use crate::request::Request;
use crate::response::Response;

/// State a middleware's `before` step saves for its `after` step.
pub enum MwCtx {
    /// Nothing to remember.
    Empty,
    /// A remembered string (e.g. a request id).
    Text(String),
    /// A remembered string and number together (e.g. a log prefix and a
    /// start time).
    Pair(String, u64),
    /// A remembered compression choice.
    Alg(Option<CompressionAlgorithm>),
}

/// What a middleware's `before` step decided.
pub enum BeforeOutcome {
    /// Hand this (possibly rewritten) request to the next stage; run the
    /// `after` step on the way back out with the saved state.
    Proceed(Request, MwCtx),
    /// Answer immediately with this response; nothing further runs, and
    /// this middleware's own `after` step is skipped.
    ShortCircuit(Response),
    /// Fail immediately with this typed error.
    Abort(WebError),
}

/// A middleware: a `before` step on the way in and an `after` step on the
/// way out, each bound by a relation the implementation supplies.
pub trait Middleware {
    /// What the `before` step promises of its outcome.
    spec fn before_ok(&self, req: Request, out: BeforeOutcome) -> bool;

    /// What the `after` step promises: how the outcome handed back out
    /// relates to the one produced inside.
    spec fn after_ok(
        &self,
        ctx: MwCtx,
        input: Result<Response, WebError>,
        out: Result<Response, WebError>,
    ) -> bool;

    /// Observe or rewrite the request, or cut the pipeline short.
    fn before(&self, req: Request) -> (out: BeforeOutcome)
        ensures
            self.before_ok(req, out),
    ;

    /// Observe or rewrite the outcome of the inner stages.
    fn after(&self, ctx: MwCtx, input: Result<Response, WebError>) -> (out: Result<
        Response,
        WebError,
    >)
        ensures
            self.after_ok(ctx, input, out),
    ;
}

/// The composed pipeline relation: `out` is a possible outcome of running
/// the middlewares (last one outermost) around the terminal handler on
/// `req`. The outermost middleware observes the request first; if it
/// proceeds, the rest of the pipeline runs on the rewritten request and its
/// `after` step has the last word on the outcome; if it short-circuits,
/// nothing inside runs.
pub open spec fn chain_ok<M: Middleware, H: Handler>(
    mws: Seq<M>,
    t: H,
    req: Request,
    out: Result<Response, WebError>,
) -> bool
    decreases mws.len(),
{
    if mws.len() == 0 {
        t.handle_ok(req, out)
    } else {
        exists|b: BeforeOutcome|
            #[trigger] mws.last().before_ok(req, b) && match b {
                BeforeOutcome::Proceed(r2, c) => exists|mid: Result<Response, WebError>|
                    #[trigger] mws.last().after_ok(c, mid, out) && chain_ok(
                        mws.drop_last(),
                        t,
                        r2,
                        mid,
                    ),
                BeforeOutcome::ShortCircuit(res) => out == Result::<Response, WebError>::Ok(res),
                BeforeOutcome::Abort(e) => out == Result::<Response, WebError>::Err(e),
            }
    }
}

/// Run the first `n` middlewares (the `n`-th outermost) around `t`.
fn run_from<M: Middleware, H: Handler>(mws: &Vec<M>, n: usize, t: &H, req: Request) -> (out:
    Result<Response, WebError>)
    requires
        n <= mws@.len(),
    ensures
        chain_ok(mws@.take(n as int), *t, req, out),
    decreases n,
{
    if n == 0 {
        let out = t.handle(req);
        proof {
            assert(mws@.take(0) =~= Seq::<M>::empty());
        }
        out
    } else {
        let ghost pre = mws@.take(n as int);
        proof {
            assert(pre.last() == mws@[n - 1]);
            assert(pre.drop_last() =~= mws@.take(n - 1));
        }
        let m = &mws[n - 1];
        let b = m.before(req);
        let ghost gb = b;
        match b {
            BeforeOutcome::Proceed(r2, c) => {
                let ghost gr2 = r2;
                let ghost gc = c;
                let mid = run_from(mws, n - 1, t, r2);
                let ghost gmid = mid;
                let out = m.after(c, mid);
                proof {
                    assert(pre.last().before_ok(req, gb));
                    assert(pre.last().after_ok(gc, gmid, out) && chain_ok(
                        pre.drop_last(),
                        *t,
                        gr2,
                        gmid,
                    ));
                    assert(chain_ok(pre, *t, req, out));
                }
                out
            },
            BeforeOutcome::ShortCircuit(res) => {
                let ghost gres = res;
                proof {
                    assert(pre.last().before_ok(req, gb));
                }
                Result::Ok(res)
            },
            BeforeOutcome::Abort(e) => {
                let ghost ge = e;
                proof {
                    assert(pre.last().before_ok(req, gb));
                }
                Result::Err(e)
            },
        }
    }
}

/// Run a middleware list (last-registered outermost) around a terminal
/// handler.
pub fn run_chain<M: Middleware, H: Handler>(mws: &Vec<M>, t: &H, req: Request) -> (out: Result<
    Response,
    WebError,
>)
    ensures
        chain_ok(mws@, *t, req, out),
{
    let n = mws.len();
    let out = run_from(mws, n, t, req);
    proof {
        assert(mws@.take(n as int) =~= mws@);
    }
    out
}

/// A middleware list composed around a terminal handler, itself a handler.
pub struct Chain<M, H> {
    pub middlewares: Vec<M>,
    pub terminal: H,
}

impl<M: Middleware, H: Handler> Handler for Chain<M, H> {
    open spec fn handle_ok(&self, req: Request, out: Result<Response, WebError>) -> bool {
        chain_ok(self.middlewares@, self.terminal, req, out)
    }

    fn handle(&self, req: Request) -> (out: Result<Response, WebError>) {
        run_chain(&self.middlewares, &self.terminal, req)
    }
}

/// Compose middlewares around a terminal handler: the onion, with the
/// last-registered middleware outermost.
pub fn compose<M: Middleware, H: Handler>(middlewares: Vec<M>, terminal: H) -> (c: Chain<M, H>)
    ensures
        c.middlewares == middlewares,
        c.terminal == terminal,
{
    Chain { middlewares, terminal }
}

/// Any one of the built-in middlewares, so that one stack can mix them.
pub enum BuiltinMiddleware {
    RequestId(crate::middleware::request_id_middleware::RequestId),
    Tracing(crate::middleware::tracing_middleware::TracingMiddleware),
    PanicRecovery(crate::middleware::panic_recovery_middleware::PanicRecoveryMiddleware),
    Limits(crate::middleware::limits_middleware::LimitsMiddleware),
    Compression(crate::middleware::compression_middleware::CompressionMiddleware),
}

impl Middleware for BuiltinMiddleware {
    open spec fn before_ok(&self, req: Request, out: BeforeOutcome) -> bool {
        match self {
            BuiltinMiddleware::RequestId(m) => m.before_ok(req, out),
            BuiltinMiddleware::Tracing(m) => m.before_ok(req, out),
            BuiltinMiddleware::PanicRecovery(m) => m.before_ok(req, out),
            BuiltinMiddleware::Limits(m) => m.before_ok(req, out),
            BuiltinMiddleware::Compression(m) => m.before_ok(req, out),
        }
    }

    open spec fn after_ok(
        &self,
        ctx: MwCtx,
        input: Result<Response, WebError>,
        out: Result<Response, WebError>,
    ) -> bool {
        match self {
            BuiltinMiddleware::RequestId(m) => m.after_ok(ctx, input, out),
            BuiltinMiddleware::Tracing(m) => m.after_ok(ctx, input, out),
            BuiltinMiddleware::PanicRecovery(m) => m.after_ok(ctx, input, out),
            BuiltinMiddleware::Limits(m) => m.after_ok(ctx, input, out),
            BuiltinMiddleware::Compression(m) => m.after_ok(ctx, input, out),
        }
    }

    fn before(&self, req: Request) -> (out: BeforeOutcome) {
        match self {
            BuiltinMiddleware::RequestId(m) => m.before(req),
            BuiltinMiddleware::Tracing(m) => m.before(req),
            BuiltinMiddleware::PanicRecovery(m) => m.before(req),
            BuiltinMiddleware::Limits(m) => m.before(req),
            BuiltinMiddleware::Compression(m) => m.before(req),
        }
    }

    fn after(&self, ctx: MwCtx, input: Result<Response, WebError>) -> (out: Result<
        Response,
        WebError,
    >) {
        match self {
            BuiltinMiddleware::RequestId(m) => m.after(ctx, input),
            BuiltinMiddleware::Tracing(m) => m.after(ctx, input),
            BuiltinMiddleware::PanicRecovery(m) => m.after(ctx, input),
            BuiltinMiddleware::Limits(m) => m.after(ctx, input),
            BuiltinMiddleware::Compression(m) => m.after(ctx, input),
        }
    }
}

/// Registering one more middleware wraps it outermost: its `before` step
/// observes the original request first, the inner pipeline runs on what it
/// handed on, and its `after` step has the last word on the outcome.
pub proof fn lemma_last_registered_outermost<M: Middleware, H: Handler>(
    mws: Seq<M>,
    m: M,
    t: H,
    req: Request,
    r2: Request,
    c: MwCtx,
    mid: Result<Response, WebError>,
    out: Result<Response, WebError>,
)
    requires
        m.before_ok(req, BeforeOutcome::Proceed(r2, c)),
        chain_ok(mws, t, r2, mid),
        m.after_ok(c, mid, out),
    ensures
        chain_ok(mws.push(m), t, req, out),
{
    let whole = mws.push(m);
    assert(whole.last() == m);
    assert(whole.drop_last() =~= mws);
    assert(whole.last().before_ok(req, BeforeOutcome::Proceed(r2, c)));
    assert(whole.last().after_ok(c, mid, out) && chain_ok(whole.drop_last(), t, r2, mid));
}

/// A middleware that short-circuits decides the outcome alone: whatever the
/// inner middlewares and the terminal handler are, nothing of them runs and
/// its response is the pipeline's outcome.
pub proof fn lemma_short_circuit_skips_inner<M: Middleware, H: Handler>(
    mws: Seq<M>,
    m: M,
    t: H,
    req: Request,
    res: Response,
)
    requires
        m.before_ok(req, BeforeOutcome::ShortCircuit(res)),
    ensures
        chain_ok(mws.push(m), t, req, Result::<Response, WebError>::Ok(res)),
{
    let whole = mws.push(m);
    assert(whole.last() == m);
    assert(whole.last().before_ok(req, BeforeOutcome::ShortCircuit(res)));
}

/// The two-middleware onion, spelled out: with `a` registered first and `b`
/// second, `b`'s `before` step runs first on the request, then `a`'s, then
/// the terminal handler; `a`'s `after` step runs before `b`'s on the way
/// out.
pub proof fn lemma_onion_order_two<M: Middleware, H: Handler>(
    a: M,
    b: M,
    t: H,
    req: Request,
    r_b: Request,
    c_b: MwCtx,
    r_a: Request,
    c_a: MwCtx,
    t_out: Result<Response, WebError>,
    a_out: Result<Response, WebError>,
    b_out: Result<Response, WebError>,
)
    requires
        b.before_ok(req, BeforeOutcome::Proceed(r_b, c_b)),
        a.before_ok(r_b, BeforeOutcome::Proceed(r_a, c_a)),
        t.handle_ok(r_a, t_out),
        a.after_ok(c_a, t_out, a_out),
        b.after_ok(c_b, a_out, b_out),
    ensures
        chain_ok(seq![a, b], t, req, b_out),
{
    assert(chain_ok(Seq::<M>::empty(), t, r_a, t_out));
    lemma_last_registered_outermost(Seq::<M>::empty(), a, t, r_b, r_a, c_a, t_out, a_out);
    assert(Seq::<M>::empty().push(a) =~= seq![a]);
    lemma_last_registered_outermost(seq![a], b, t, req, r_b, c_b, a_out, b_out);
    assert(seq![a].push(b) =~= seq![a, b]);
}

} // verus!
