//! Typed errors that carry a status code and a message, and their rendering
//! as JSON responses.

use vstd::prelude::*;

verus! {

use vstd::string::StringExecFns;
use crate::response::{Response, Body, valid_status};

/// The canonical JSON quoting of a string (quotes and escapes included).
pub uninterp spec fn json_quoted(s: Seq<char>) -> Seq<char>;

/// Relies on `serde_json::to_string` for `str`: it returns the JSON string
/// literal for the characters, a function of the characters alone; for a
/// string it cannot fail.
#[verifier::external_body]
fn json_quote(s: &str) -> (r: String)
    ensures
        r@ == json_quoted(s@),
{
    match serde_json::to_string(s) {
        Ok(q) => q,
        Err(_) => String::new(),
    }
}

/// The characters of the default error rendering: a JSON object with a
/// single `error` member holding the message.
pub open spec fn error_body_chars(msg: Seq<char>) -> Seq<char> {
    "{\"error\":"@ + json_quoted(msg) + "}"@
}

/// An error that knows the status code and message of its HTTP rendering.
pub trait ResponseError {
    /// The status code of the rendering, as a function of the error value.
    spec fn spec_status(&self) -> u16;

    /// The message of the rendering, as a function of the error value.
    spec fn spec_message(&self) -> Seq<char>;

    /// The HTTP status code for this error.
    fn status_code(&self) -> (r: u16)
        ensures
            r == self.spec_status(),
    ;

    /// The human-readable message for this error.
    fn message(&self) -> (r: String)
        ensures
            r@ == self.spec_message(),
    ;
}

/// What rendering an error as a response yields: the error's status code
/// (500 when not representable) and a JSON object carrying its message,
/// under the JSON content type.
pub open spec fn error_response_ok(e: WebError, r: Response) -> bool {
    &&& r.status == (if valid_status(e.status) {
        e.status
    } else {
        500u16
    })
    &&& r.headers@ == Seq::<(Seq<char>, Seq<char>)>::empty().push(
        ("content-type"@, "application/json"@),
    )
    &&& r.body matches Body::Bytes(b) && b@ == vstd::utf8::encode_utf8(
        error_body_chars(e.message@),
    )
}

/// The error type carried through handlers and middlewares: any
/// `ResponseError`, captured as its status code and message.
#[derive(Debug)]
pub struct WebError {
    pub status: u16,
    pub message: String,
}

impl WebError {
    /// Capture any `ResponseError` as a `WebError`.
    pub fn new<T: ResponseError>(err: T) -> (r: WebError)
        ensures
            r.status == err.spec_status(),
            r.message@ == err.spec_message(),
    {
        let status = err.status_code();
        let message = err.message();
        WebError { status, message }
    }

    /// Build a `WebError` directly from a status code and message.
    pub fn from_parts(status: u16, message: String) -> (r: WebError)
        ensures
            r.status == status,
            r.message == message,
    {
        WebError { status, message }
    }

    /// Render this error as a response: its status code (500 when the code
    /// is not representable) and a JSON object carrying the message.
    pub fn into_response(self) -> (r: Response)
        ensures
            error_response_ok(self, r),
    {
        let mut body = String::new();
        body.append("{\"error\":");
        let quoted = json_quote(self.message.as_str());
        body.append(quoted.as_str());
        body.append("}");
        let mut r = Response::new(self.status);
        r.set_header("content-type", "application/json");
        proof {
            assert(body@ =~= error_body_chars(self.message@));
            assert(r.headers@ =~= Seq::<(Seq<char>, Seq<char>)>::empty().push(
                ("content-type"@, "application/json"@),
            ));
        }
        let bytes = vstd::string::StrSliceExecFns::as_bytes_vec(body.as_str());
        r.body = Body::Bytes(bytes);
        r
    }
}

impl ResponseError for WebError {
    open spec fn spec_status(&self) -> u16 {
        self.status
    }

    open spec fn spec_message(&self) -> Seq<char> {
        self.message@
    }

    fn status_code(&self) -> (r: u16) {
        self.status
    }

    fn message(&self) -> (r: String) {
        self.message.clone()
    }
}

/// A plain status-and-message error.
#[derive(Debug)]
pub struct SimpleError {
    pub status: u16,
    pub message: String,
}

impl SimpleError {
    /// Build an error from a status code and message.
    pub fn new(status: u16, message: String) -> (r: SimpleError)
        ensures
            r.status == status,
            r.message == message,
    {
        SimpleError { status, message }
    }
}

impl ResponseError for SimpleError {
    open spec fn spec_status(&self) -> u16 {
        self.status
    }

    open spec fn spec_message(&self) -> Seq<char> {
        self.message@
    }

    fn status_code(&self) -> (r: u16) {
        self.status
    }

    fn message(&self) -> (r: String) {
        self.message.clone()
    }
}

impl From<SimpleError> for WebError {
    fn from(err: SimpleError) -> (r: WebError) {
        WebError { status: err.status, message: err.message }
    }
}

impl vstd::std_specs::convert::FromSpecImpl<SimpleError> for WebError {
    open spec fn obeys_from_spec() -> bool {
        true
    }

    open spec fn from_spec(t: SimpleError) -> WebError {
        WebError { status: t.status, message: t.message }
    }
}

/// A 400 Bad Request error with the given message.
pub fn bad_request(msg: &str) -> (r: WebError)
    ensures
        r.status == 400,
        r.message@ == msg@,
{
    WebError { status: 400, message: msg.to_owned() }
}

/// A 401 Unauthorized error with the given message.
pub fn unauthorized(msg: &str) -> (r: WebError)
    ensures
        r.status == 401,
        r.message@ == msg@,
{
    WebError { status: 401, message: msg.to_owned() }
}

/// A 403 Forbidden error with the given message.
pub fn forbidden(msg: &str) -> (r: WebError)
    ensures
        r.status == 403,
        r.message@ == msg@,
{
    WebError { status: 403, message: msg.to_owned() }
}

/// A 404 Not Found error with the given message.
pub fn not_found(msg: &str) -> (r: WebError)
    ensures
        r.status == 404,
        r.message@ == msg@,
{
    WebError { status: 404, message: msg.to_owned() }
}

/// A 422 Unprocessable Entity error with the given message.
pub fn unprocessable_entity(msg: &str) -> (r: WebError)
    ensures
        r.status == 422,
        r.message@ == msg@,
{
    WebError { status: 422, message: msg.to_owned() }
}

/// A 500 Internal Server Error with the given message.
pub fn internal_error(msg: &str) -> (r: WebError)
    ensures
        r.status == 500,
        r.message@ == msg@,
{
    WebError { status: 500, message: msg.to_owned() }
}

/// A 503 Service Unavailable error with the given message.
pub fn service_unavailable(msg: &str) -> (r: WebError)
    ensures
        r.status == 503,
        r.message@ == msg@,
{
    WebError { status: 503, message: msg.to_owned() }
}

} // verus!
