//! HTTP request methods as a plain enumeration.

use vstd::prelude::*;

verus! {

/// The standard HTTP request methods.
#[derive(Clone, Copy, PartialEq, Eq, Structural, Debug, Hash)]
pub enum Method {
    Connect,
    Delete,
    Get,
    Head,
    Options,
    Patch,
    Post,
    Put,
    Trace,
}

impl Method {
    /// The canonical upper-case name of the method.
    pub open spec fn spec_name(self) -> Seq<char> {
        match self {
            Method::Connect => "CONNECT"@,
            Method::Delete => "DELETE"@,
            Method::Get => "GET"@,
            Method::Head => "HEAD"@,
            Method::Options => "OPTIONS"@,
            Method::Patch => "PATCH"@,
            Method::Post => "POST"@,
            Method::Put => "PUT"@,
            Method::Trace => "TRACE"@,
        }
    }

    /// The canonical upper-case name, e.g. `"GET"`.
    pub fn as_str(&self) -> (r: &'static str)
        ensures
            r@ == self.spec_name(),
    {
        match self {
            Method::Connect => "CONNECT",
            Method::Delete => "DELETE",
            Method::Get => "GET",
            Method::Head => "HEAD",
            Method::Options => "OPTIONS",
            Method::Patch => "PATCH",
            Method::Post => "POST",
            Method::Put => "PUT",
            Method::Trace => "TRACE",
        }
    }

    /// A rank that orders methods alphabetically by their canonical name;
    /// used to emit `Allow` headers in a normalized order.
    pub open spec fn spec_rank(self) -> int {
        match self {
            Method::Connect => 0,
            Method::Delete => 1,
            Method::Get => 2,
            Method::Head => 3,
            Method::Options => 4,
            Method::Patch => 5,
            Method::Post => 6,
            Method::Put => 7,
            Method::Trace => 8,
        }
    }

    /// The rank as an executable value.
    pub fn rank(&self) -> (r: u8)
        ensures
            r as int == self.spec_rank(),
    {
        match self {
            Method::Connect => 0,
            Method::Delete => 1,
            Method::Get => 2,
            Method::Head => 3,
            Method::Options => 4,
            Method::Patch => 5,
            Method::Post => 6,
            Method::Put => 7,
            Method::Trace => 8,
        }
    }
}

} // verus!
