//! The handler abstraction: anything that turns a request into a response
//! or a typed error.

use vstd::prelude::*;

verus! {

use crate::error::WebError;
use crate::request::Request;
use crate::response::{Body, Response};

/// A route handler. Implementations supply `handle_ok`, a relation that
/// their `handle` guarantees between the request and what it returns.
pub trait Handler {
    /// What this handler promises of its results.
    spec fn handle_ok(&self, req: Request, out: Result<Response, WebError>) -> bool;

    /// Produce a response (or typed error) for the request.
    fn handle(&self, req: Request) -> (out: Result<Response, WebError>)
        ensures
            self.handle_ok(req, out),
    ;
}

/// Does `r` carry this status and this UTF-8 text body, with only the
/// plain-text content type set?
pub open spec fn is_text_response(r: Response, status: u16, body: Seq<char>) -> bool {
    &&& r.status == status
    &&& r.headers@ == Seq::<(Seq<char>, Seq<char>)>::empty().push(
        ("content-type"@, "text/plain; charset=utf-8"@),
    )
    &&& r.body matches Body::Bytes(b) && b@ == vstd::utf8::encode_utf8(body)
}

/// A handler that always answers with one fixed status and text body.
pub struct TextHandler {
    pub status: u16,
    pub body: String,
}

impl TextHandler {
    /// A handler answering `status` with the plain-text `body`.
    pub fn new(status: u16, body: &str) -> (r: TextHandler)
        ensures
            r.status == status,
            r.body@ == body@,
    {
        TextHandler { status, body: body.to_owned() }
    }
}

impl Handler for TextHandler {
    open spec fn handle_ok(&self, req: Request, out: Result<Response, WebError>) -> bool {
        out matches Result::Ok(r) && is_text_response(
            r,
            if crate::response::valid_status(self.status) {
                self.status
            } else {
                500u16
            },
            self.body@,
        )
    }

    fn handle(&self, req: Request) -> (out: Result<Response, WebError>) {
        Result::Ok(Response::text(self.status, self.body.as_str()))
    }
}

/// The default handler for unrouted paths: 404 with a plain text body.
pub struct NotFoundHandler;

impl Handler for NotFoundHandler {
    open spec fn handle_ok(&self, req: Request, out: Result<Response, WebError>) -> bool {
        out matches Result::Ok(r) && is_text_response(r, 404, "Not Found"@)
    }

    fn handle(&self, req: Request) -> (out: Result<Response, WebError>) {
        Result::Ok(Response::text(404, "Not Found"))
    }
}

} // verus!
