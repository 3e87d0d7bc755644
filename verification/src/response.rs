//! The response value: a status code, headers, and a body that is either a
//! fully buffered byte sequence or a finite sequence of byte chunks.

use vstd::prelude::*;

verus! {

use vstd::string::StrSliceExecFns;
use crate::headers::{HeaderMap, spec_insert};

/// A response body: fully buffered bytes, or a finite, non-restartable
/// sequence of byte chunks handed to the transport one at a time.
pub enum Body {
    Bytes(Vec<u8>),
    Stream(Vec<Vec<u8>>),
}

/// The views of a vector of byte chunks.
pub open spec fn chunk_views(cs: Seq<Vec<u8>>) -> Seq<Seq<u8>> {
    cs.map_values(|c: Vec<u8>| c@)
}

impl Body {
    /// The bytes a recipient that concatenates the whole body would see.
    pub open spec fn spec_all_bytes(self) -> Seq<u8> {
        match self {
            Body::Bytes(b) => b@,
            Body::Stream(chunks) => concat_chunks(chunk_views(chunks@)),
        }
    }
}

/// Concatenation of a sequence of byte chunks.
pub open spec fn concat_chunks(chunks: Seq<Seq<u8>>) -> Seq<u8>
    decreases chunks.len(),
{
    if chunks.len() == 0 {
        Seq::<u8>::empty()
    } else {
        concat_chunks(chunks.drop_last()) + chunks.last()
    }
}

/// Is this a status code with a defined three-digit representation?
pub open spec fn valid_status(s: u16) -> bool {
    100 <= s < 1000
}

/// An HTTP response under construction.
pub struct Response {
    pub status: u16,
    pub headers: HeaderMap,
    pub body: Body,
}

impl Response {
    /// An empty-bodied response with the given status; a status outside the
    /// representable range 100..=999 falls back to 500.
    pub fn new(status: u16) -> (r: Response)
        ensures
            r.status == (if valid_status(status) {
                status
            } else {
                500u16
            }),
            r.headers@ == Seq::<(Seq<char>, Seq<char>)>::empty(),
            r.body matches Body::Bytes(b) && b@ == Seq::<u8>::empty(),
    {
        let st: u16 = if 100 <= status && status < 1000 {
            status
        } else {
            500
        };
        Response { status: st, headers: HeaderMap::new(), body: Body::Bytes(Vec::new()) }
    }

    /// A plain-text response: UTF-8 bytes of `body`, with the text content type.
    pub fn text(status: u16, body: &str) -> (r: Response)
        ensures
            r.status == (if valid_status(status) {
                status
            } else {
                500u16
            }),
            r.headers@ == Seq::<(Seq<char>, Seq<char>)>::empty().push(
                ("content-type"@, "text/plain; charset=utf-8"@),
            ),
            r.body matches Body::Bytes(b) && b@ == vstd::utf8::encode_utf8(body@),
    {
        let mut r = Response::new(status);
        r.headers.insert("content-type", "text/plain; charset=utf-8".to_owned());
        r.body = Body::Bytes(body.as_bytes_vec());
        proof {
            assert(r.headers@ =~= Seq::<(Seq<char>, Seq<char>)>::empty().push(
                ("content-type"@, "text/plain; charset=utf-8"@),
            ));
        }
        r
    }

    /// An HTML response: UTF-8 bytes of `body`, with the HTML content type.
    pub fn html(status: u16, body: &str) -> (r: Response)
        ensures
            r.status == (if valid_status(status) {
                status
            } else {
                500u16
            }),
            r.headers@ == Seq::<(Seq<char>, Seq<char>)>::empty().push(
                ("content-type"@, "text/html; charset=utf-8"@),
            ),
            r.body matches Body::Bytes(b) && b@ == vstd::utf8::encode_utf8(body@),
    {
        let mut r = Response::new(status);
        r.headers.insert("content-type", "text/html; charset=utf-8".to_owned());
        r.body = Body::Bytes(body.as_bytes_vec());
        proof {
            assert(r.headers@ =~= Seq::<(Seq<char>, Seq<char>)>::empty().push(
                ("content-type"@, "text/html; charset=utf-8"@),
            ));
        }
        r
    }

    /// An empty response with the given status; sets no content type.
    pub fn empty(status: u16) -> (r: Response)
        ensures
            r.status == (if valid_status(status) {
                status
            } else {
                500u16
            }),
            r.headers@ == Seq::<(Seq<char>, Seq<char>)>::empty(),
            r.body matches Body::Bytes(b) && b@ == Seq::<u8>::empty(),
    {
        Response::new(status)
    }

    /// A raw byte response; sets no content type.
    pub fn bytes(status: u16, body: Vec<u8>) -> (r: Response)
        ensures
            r.status == (if valid_status(status) {
                status
            } else {
                500u16
            }),
            r.headers@ == Seq::<(Seq<char>, Seq<char>)>::empty(),
            r.body == Body::Bytes(body),
    {
        let mut r = Response::new(status);
        r.body = Body::Bytes(body);
        r
    }

    /// A chunked response from a finite sequence of byte chunks; sets no
    /// framing headers (the dispatcher derives them).
    pub fn stream(status: u16, chunks: Vec<Vec<u8>>) -> (r: Response)
        ensures
            r.status == (if valid_status(status) {
                status
            } else {
                500u16
            }),
            r.headers@ == Seq::<(Seq<char>, Seq<char>)>::empty(),
            r.body == Body::Stream(chunks),
    {
        let mut r = Response::new(status);
        r.body = Body::Stream(chunks);
        r
    }

    /// Set a header in place (case-insensitive replace-or-append).
    pub fn set_header(&mut self, name: &str, value: &str)
        ensures
            final(self).status == old(self).status,
            final(self).body == old(self).body,
            final(self).headers@ == spec_insert(old(self).headers@, name@, value@),
    {
        self.headers.insert(name, value.to_owned());
    }

    /// Set a header, builder style.
    pub fn header(self, name: &str, value: &str) -> (r: Response)
        ensures
            r.status == self.status,
            r.body == self.body,
            r.headers@ == spec_insert(self.headers@, name@, value@),
    {
        let mut r = self;
        r.set_header(name, value);
        r
    }
}

} // verus!
