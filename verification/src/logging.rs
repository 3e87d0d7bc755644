//! Request logging: a pluggable logger interface and a middleware that
//! reports each request's method, path, status and latency.

use std::io::Write;
use vstd::prelude::*;

verus! {

use vstd::string::{StringExecFns, StrSliceExecFns};
use crate::error::WebError;
use crate::headers::spec_get;
use crate::middleware::{BeforeOutcome, Middleware, MwCtx};
use crate::request::{spec_path, Request};
use crate::response::Response;
use crate::text::{spec_dec, u64_to_dec};

/// Log severities, least to most severe.
#[derive(Debug, Clone, Copy)]
pub enum Level {
    Trace,
    Debug,
    Info,
    Warn,
    Error,
}

/// A sink for log lines. Implementations decide where a message goes;
/// nothing is promised of the effect.
pub trait Logger {
    /// Record one message at a severity, tagged with a request id.
    fn log(&self, level: Level, message: &str, request_id: &str);
}

/// A logger that writes each message to standard error.
pub struct StdoutLogger;

/// Relies on `std::io::Stderr::write_fmt` (via `writeln`): the line is
/// emitted on standard error; the message is only emitted, nothing is
/// returned.
#[verifier::external_body]
fn stderr_log(level: Level, message: &str, request_id: &str) {
    let _ = writeln!(
        std::io::stderr(),
        "level={:?} request_id={} msg=\"{}\"",
        level,
        request_id,
        message,
    );
}

impl Logger for StdoutLogger {
    fn log(&self, level: Level, message: &str, request_id: &str) {
        stderr_log(level, message, request_id)
    }
}

/// Milliseconds since the Unix epoch, truncated to 64 bits.
/// Relies on `std::time::SystemTime::now`; nothing is promised of the value.
#[verifier::external_body]
fn now_millis() -> (r: u64) {
    let d = std::time::SystemTime::now()
        .duration_since(std::time::UNIX_EPOCH)
        .unwrap_or_default();
    d.as_millis() as u64
}

/// The prefix the logging middleware remembers on the way in: the method
/// name, a space, and the path.
pub open spec fn log_prefix(req: Request) -> Seq<char> {
    req.method.spec_name() + " "@ + spec_path(req.target@)
}

/// The full line logged on the way out: prefix, status, and elapsed
/// milliseconds.
pub open spec fn log_line(prefix: Seq<char>, status: u16, elapsed: int) -> Seq<char> {
    prefix + " -> "@ + spec_dec(status as int) + " in "@ + spec_dec(elapsed) + "ms"@
}

/// Middleware that measures a request's wall-clock latency and hands one
/// line per completed request to its logger. The outcome passes through
/// unchanged.
pub struct LoggingMiddleware<L> {
    pub logger: L,
}

impl<L: Logger> LoggingMiddleware<L> {
    /// A logging middleware around the given logger.
    pub fn new(logger: L) -> (r: LoggingMiddleware<L>)
        ensures
            r.logger == logger,
    {
        LoggingMiddleware { logger }
    }
}

impl<L: Logger> Middleware for LoggingMiddleware<L> {
    open spec fn before_ok(&self, req: Request, out: BeforeOutcome) -> bool {
        out matches BeforeOutcome::Proceed(r2, c) && r2 == req && (c matches MwCtx::Pair(
            p,
            start,
        ) && p@ == log_prefix(req))
    }

    open spec fn after_ok(
        &self,
        ctx: MwCtx,
        input: Result<Response, WebError>,
        out: Result<Response, WebError>,
    ) -> bool {
        out == input
    }

    fn before(&self, req: Request) -> (out: BeforeOutcome) {
        let mut prefix = req.method.as_str().to_owned();
        prefix.append(" ");
        let path = req.path();
        prefix.append(path.as_str());
        let start = now_millis();
        BeforeOutcome::Proceed(req, MwCtx::Pair(prefix, start))
    }

    fn after(&self, ctx: MwCtx, input: Result<Response, WebError>) -> (out: Result<
        Response,
        WebError,
    >) {
        match ctx {
            MwCtx::Pair(prefix, start) => {
                match &input {
                    Result::Ok(res) => {
                        let now = now_millis();
                        let elapsed: u64 = if now >= start {
                            now - start
                        } else {
                            0
                        };
                        let mut line = prefix;
                        line.append(" -> ");
                        let st = u64_to_dec(res.status as u64);
                        line.append(st.as_str());
                        line.append(" in ");
                        let el = u64_to_dec(elapsed);
                        line.append(el.as_str());
                        line.append("ms");
                        let rid: String = match res.headers.get("x-request-id") {
                            Option::Some(v) => v.clone(),
                            Option::None => String::new(),
                        };
                        self.logger.log(Level::Info, line.as_str(), rid.as_str());
                        input
                    },
                    Result::Err(_) => input,
                }
            },
            _ => input,
        }
    }
}

} // verus!
