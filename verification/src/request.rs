//! The request value: method, target path, headers, buffered body, route
//! parameters, and the two typed stores; plus form-body parsing.

use vstd::prelude::*;

verus! {

use vstd::string::{StringExecFns, StrSliceExecFns, StringSliceAdditionalSpecFns};
use vstd::utf8::{valid_utf8, decode_utf8, encode_utf8};
use crate::data::{AppData, Extensions};
use crate::headers::{HeaderMap, spec_get, spec_insert};
use crate::method::Method;
use crate::text::{find_char, find_char_exec, spec_split, split_str, starts_with, str_eq};

/// An HTTP request as the dispatch core sees it: a parsed head, a fully
/// buffered body (possibly empty), the parameters bound by routing (empty
/// until the router has matched), and the two typed stores.
pub struct Request {
    pub method: Method,
    pub target: String,
    pub headers: HeaderMap,
    pub body: Vec<u8>,
    pub params: Vec<(String, String)>,
    pub app_data: Option<AppData>,
    pub extensions: Extensions,
}

/// The path part of a request target: everything before the first `?`.
pub open spec fn spec_path(target: Seq<char>) -> Seq<char> {
    let q = find_char(target, '?');
    if q < 0 {
        target
    } else {
        target.take(q)
    }
}

/// Index of the first parameter named `name`, or `-1`.
pub open spec fn spec_find_param(ps: Seq<(Seq<char>, Seq<char>)>, name: Seq<char>) -> int
    decreases ps.len(),
{
    if ps.len() == 0 {
        -1
    } else if ps[0].0 == name {
        0
    } else {
        let r = spec_find_param(ps.drop_first(), name);
        if r < 0 {
            -1
        } else {
            r + 1
        }
    }
}

/// The value of the parameter named `name`, if bound.
pub open spec fn spec_param(ps: Seq<(Seq<char>, Seq<char>)>, name: Seq<char>) -> Option<Seq<char>> {
    let i = spec_find_param(ps, name);
    if i < 0 {
        Option::None
    } else {
        Option::Some(ps[i].1)
    }
}

/// The view of a parameter list.
pub open spec fn params_view(ps: Seq<(String, String)>) -> Seq<(Seq<char>, Seq<char>)> {
    ps.map_values(|p: (String, String)| (p.0@, p.1@))
}

proof fn lemma_find_param_at(ps: Seq<(Seq<char>, Seq<char>)>, name: Seq<char>, i: int)
    requires
        0 <= i < ps.len(),
        ps[i].0 == name,
        forall|j: int| 0 <= j < i ==> ps[j].0 != name,
    ensures
        spec_find_param(ps, name) == i,
    decreases ps.len(),
{
    if i > 0 {
        assert(forall|j: int| 0 <= j < ps.drop_first().len() ==> ps.drop_first()[j] == ps[j + 1]);
        lemma_find_param_at(ps.drop_first(), name, i - 1);
    }
}

proof fn lemma_find_param_missing(ps: Seq<(Seq<char>, Seq<char>)>, name: Seq<char>)
    requires
        forall|j: int| 0 <= j < ps.len() ==> ps[j].0 != name,
    ensures
        spec_find_param(ps, name) == -1,
    decreases ps.len(),
{
    if ps.len() > 0 {
        assert(forall|j: int| 0 <= j < ps.drop_first().len() ==> ps.drop_first()[j] == ps[j + 1]);
        lemma_find_param_missing(ps.drop_first(), name);
    }
}

impl Request {
    /// A request with the given method and target, no headers, no body.
    pub fn new(method: Method, target: &str) -> (r: Request)
        ensures
            r.method == method,
            r.target@ == target@,
            r.headers@ == Seq::<(Seq<char>, Seq<char>)>::empty(),
            r.body@ == Seq::<u8>::empty(),
            r.params@ == Seq::<(String, String)>::empty(),
            r.app_data is None,
    {
        let r = Request {
            method,
            target: target.to_owned(),
            headers: HeaderMap::new(),
            body: Vec::new(),
            params: Vec::new(),
            app_data: Option::None,
            extensions: Extensions::new(),
        };
        proof {
            assert(r.params@ =~= Seq::<(String, String)>::empty());
        }
        r
    }

    /// Set a header, builder style (case-insensitive replace-or-append).
    pub fn header(self, name: &str, value: &str) -> (r: Request)
        ensures
            r.headers@ == spec_insert(self.headers@, name@, value@),
            r.method == self.method,
            r.target == self.target,
            r.body == self.body,
            r.params == self.params,
            r.app_data == self.app_data,
            r.extensions == self.extensions,
    {
        let mut r = self;
        r.headers.insert(name, value.to_owned());
        r
    }

    /// Set a header in place.
    pub fn set_header(&mut self, name: &str, value: &str)
        ensures
            final(self).headers@ == spec_insert(old(self).headers@, name@, value@),
            final(self).method == old(self).method,
            final(self).target == old(self).target,
            final(self).body == old(self).body,
            final(self).params == old(self).params,
            final(self).app_data == old(self).app_data,
            final(self).extensions == old(self).extensions,
    {
        self.headers.insert(name, value.to_owned());
    }

    /// Replace the body, builder style.
    pub fn with_body(self, body: Vec<u8>) -> (r: Request)
        ensures
            r.body == body,
            r.method == self.method,
            r.target == self.target,
            r.headers == self.headers,
            r.params == self.params,
            r.app_data == self.app_data,
            r.extensions == self.extensions,
    {
        let mut r = self;
        r.body = body;
        r
    }

    /// Bind route parameters, builder style.
    pub fn with_params(self, params: Vec<(String, String)>) -> (r: Request)
        ensures
            r.params == params,
            r.method == self.method,
            r.target == self.target,
            r.headers == self.headers,
            r.body == self.body,
            r.app_data == self.app_data,
            r.extensions == self.extensions,
    {
        let mut r = self;
        r.params = params;
        r
    }

    /// Attach a handle to the application-wide store, builder style.
    pub fn with_app_data(self, data: AppData) -> (r: Request)
        ensures
            r.app_data == Option::Some(data),
            r.method == self.method,
            r.target == self.target,
            r.headers == self.headers,
            r.body == self.body,
            r.params == self.params,
            r.extensions == self.extensions,
    {
        let mut r = self;
        r.app_data = Option::Some(data);
        r
    }

    /// The request method.
    pub fn method(&self) -> (r: Method)
        ensures
            r == self.method,
    {
        self.method
    }

    /// The path part of the target: everything before the first `?`.
    pub fn path(&self) -> (r: String)
        ensures
            r@ == spec_path(self.target@),
    {
        match find_char_exec(self.target.as_str(), '?') {
            Option::Some(q) => {
                let s = self.target.as_str().substring_char(0, q);
                let r = s.to_owned();
                proof {
                    assert(s@ =~= self.target@.take(q as int));
                }
                r
            },
            Option::None => self.target.clone(),
        }
    }

    /// The headers.
    pub fn headers(&self) -> (r: &HeaderMap)
        ensures
            r == &self.headers,
    {
        &self.headers
    }

    /// The buffered body bytes.
    pub fn body(&self) -> (r: &Vec<u8>)
        ensures
            r == &self.body,
    {
        &self.body
    }

    /// The value bound to the route parameter `name`, if any.
    pub fn param(&self, name: &str) -> (r: Option<&str>)
        ensures
            match r {
                Option::Some(v) => spec_param(params_view(self.params@), name@) == Option::Some(
                    v@,
                ),
                Option::None => spec_param(params_view(self.params@), name@) is None,
            },
    {
        let n = self.params.len();
        let mut i: usize = 0;
        while i < n
            invariant
                n == self.params@.len(),
                i <= n,
                forall|j: int| 0 <= j < i ==> params_view(self.params@)[j].0 != name@,
            decreases n - i,
        {
            let p = &self.params[i];
            if str_eq(p.0.as_str(), name) {
                proof {
                    lemma_find_param_at(params_view(self.params@), name@, i as int);
                }
                return Option::Some(self.params[i].1.as_str());
            }
            i += 1;
        }
        proof {
            lemma_find_param_missing(params_view(self.params@), name@);
        }
        Option::None
    }

    /// The value bound to `name`, or `default` when unbound.
    pub fn param_or<'a>(&'a self, name: &str, default: &'a str) -> (r: &'a str)
        ensures
            match spec_param(params_view(self.params@), name@) {
                Option::Some(v) => r@ == v,
                Option::None => r@ == default@,
            },
    {
        match self.param(name) {
            Option::Some(v) => v,
            Option::None => default,
        }
    }

    /// Store a value in the request-scoped store, one slot per type;
    /// returns the previous occupant of that slot, if any.
    pub fn set_request_share_data<T: Send + Sync + 'static>(
        &mut self,
        value: std::sync::Arc<T>,
    ) -> (r: Option<std::sync::Arc<T>>)
        ensures
            final(self).method == old(self).method,
            final(self).target == old(self).target,
            final(self).headers == old(self).headers,
            final(self).body == old(self).body,
            final(self).params == old(self).params,
            final(self).app_data == old(self).app_data,
    {
        self.extensions.set(value)
    }

    /// The request-scoped value of type `T`, if one was stored.
    pub fn get_request_share_data<T: Send + Sync + 'static>(&self) -> Option<std::sync::Arc<T>> {
        self.extensions.get()
    }

    /// The application-wide value of type `T`, if the store is attached and
    /// holds one.
    pub fn get_app_share_data<T: Send + Sync + 'static>(&self) -> Option<std::sync::Arc<T>> {
        match &self.app_data {
            Option::Some(d) => d.get(),
            Option::None => Option::None,
        }
    }
}

/// Does a request head announce a body worth reading? Yes when a
/// transfer-encoding is present, or when the content-length parses to a
/// positive number; never for HEAD requests. The transport reads the body
/// exactly when this says so.
pub open spec fn spec_wants_body(method: Method, h: Seq<(Seq<char>, Seq<char>)>) -> bool {
    &&& !(method is Head)
    &&& {
        ||| spec_get(h, "transfer-encoding"@) is Some
        ||| match spec_get(h, "content-length"@) {
            Option::Some(v) => match crate::text::spec_parse_u64(v) {
                Option::Some(n) => n > 0,
                Option::None => false,
            },
            Option::None => false,
        }
    }
}

/// Executable body-read hint for the transport.
pub fn wants_body(method: Method, headers: &HeaderMap) -> (r: bool)
    ensures
        r == spec_wants_body(method, headers@),
{
    if method == Method::Head {
        return false;
    }
    if headers.contains_key("transfer-encoding") {
        return true;
    }
    match headers.get("content-length") {
        Option::Some(v) => match crate::text::parse_u64(v.as_str()) {
            Option::Some(n) => n > 0,
            Option::None => false,
        },
        Option::None => false,
    }
}

/// Why a form body could not be parsed.
#[derive(Debug)]
pub enum FormParseError {
    /// The content type is not `application/x-www-form-urlencoded`; carries
    /// the content type the request had (empty when absent).
    InvalidContentType(String),
    /// The body is not valid UTF-8.
    Utf8Error,
}

impl FormParseError {
    /// A human-readable description.
    pub fn message(&self) -> (r: String)
        ensures
            match self {
                FormParseError::InvalidContentType(ct) => r@ == "Invalid content type: "@ + ct@,
                FormParseError::Utf8Error => r@ == "UTF-8 error"@,
            },
    {
        match self {
            FormParseError::InvalidContentType(ct) => {
                let mut s = "Invalid content type: ".to_owned();
                s.append(ct.as_str());
                s
            },
            FormParseError::Utf8Error => "UTF-8 error".to_owned(),
        }
    }
}

/// Is the byte an ASCII hexadecimal digit?
pub open spec fn is_hexdig(b: u8) -> bool {
    (48 <= b && b <= 57) || (65 <= b && b <= 70) || (97 <= b && b <= 102)
}

/// The value of an ASCII hexadecimal digit.
pub open spec fn hexval(b: u8) -> int {
    if 48 <= b && b <= 57 {
        b - 48
    } else if 65 <= b && b <= 70 {
        b - 55
    } else {
        b - 87
    }
}

/// Percent-decoding of form data, over bytes: `+` becomes a space, `%` with
/// two hexadecimal digits becomes that byte, and anything else (including a
/// `%` without two hexadecimal digits) is kept as it stands.
pub open spec fn spec_urldecode(b: Seq<u8>) -> Seq<u8>
    decreases b.len(),
{
    if b.len() == 0 {
        Seq::<u8>::empty()
    } else if b[0] == 43 {
        seq![32u8] + spec_urldecode(b.drop_first())
    } else if b[0] == 37 && b.len() >= 3 && is_hexdig(b[1]) && is_hexdig(b[2]) {
        seq![(hexval(b[1]) * 16 + hexval(b[2])) as u8] + spec_urldecode(b.skip(3))
    } else {
        seq![b[0]] + spec_urldecode(b.drop_first())
    }
}

/// What `String::from_utf8_lossy` yields on any byte sequence.
pub uninterp spec fn utf8_lossy(b: Seq<u8>) -> Seq<char>;

/// Relies on `String::from_utf8_lossy`: the result is a function of the
/// bytes alone, and valid UTF-8 decodes losslessly.
#[verifier::external_body]
fn bytes_to_string_lossy(b: &Vec<u8>) -> (r: String)
    ensures
        r@ == utf8_lossy(b@),
        valid_utf8(b@) ==> r@ == decode_utf8(b@),
{
    String::from_utf8_lossy(b.as_slice()).into_owned()
}

/// Relies on `String::from_utf8`: it succeeds exactly on valid UTF-8 and
/// returns its decoding.
#[verifier::external_body]
fn bytes_to_string(b: &Vec<u8>) -> (r: Option<String>)
    ensures
        match r {
            Option::Some(s) => valid_utf8(b@) && s@ == decode_utf8(b@),
            Option::None => !valid_utf8(b@),
        },
{
    String::from_utf8(b.clone()).ok()
}

fn is_hexdig_exec(b: u8) -> (r: bool)
    ensures
        r == is_hexdig(b),
{
    (48 <= b && b <= 57) || (65 <= b && b <= 70) || (97 <= b && b <= 102)
}

fn hexval_exec(b: u8) -> (r: u8)
    requires
        is_hexdig(b),
    ensures
        r as int == hexval(b),
{
    if 48 <= b && b <= 57 {
        b - 48
    } else if 65 <= b && b <= 70 {
        b - 55
    } else {
        b - 87
    }
}

/// Executable percent-decoding over bytes.
fn urldecode(b: &Vec<u8>) -> (r: Vec<u8>)
    ensures
        r@ == spec_urldecode(b@),
{
    let n = b.len();
    let mut out: Vec<u8> = Vec::new();
    let mut i: usize = 0;
    proof {
        assert(b@.skip(0) =~= b@);
        assert(out@ + spec_urldecode(b@) =~= spec_urldecode(b@));
    }
    while i < n
        invariant
            n == b@.len(),
            i <= n,
            out@ + spec_urldecode(b@.skip(i as int)) == spec_urldecode(b@),
        decreases n - i,
    {
        let ghost rem = b@.skip(i as int);
        let ghost out0 = out@;
        let c = b[i];
        proof {
            assert(rem[0] == b@[i as int]);
        }
        if c == 43 {
            out.push(32);
            proof {
                assert(rem.drop_first() =~= b@.skip(i + 1));
                assert(out@ + spec_urldecode(b@.skip(i + 1)) =~= out0 + spec_urldecode(rem));
            }
            i += 1;
        } else {
            let mut plain: bool = true;
            if c == 37 && n - i > 2 {
                let h1 = b[i + 1];
                let h2 = b[i + 2];
                proof {
                    assert(rem[1] == b@[i + 1]);
                    assert(rem[2] == b@[i + 2]);
                }
                if is_hexdig_exec(h1) && is_hexdig_exec(h2) {
                    plain = false;
                    let v = hexval_exec(h1) * 16 + hexval_exec(h2);
                    out.push(v);
                    proof {
                        assert(rem.skip(3) =~= b@.skip(i + 3));
                        assert(out@ + spec_urldecode(b@.skip(i + 3)) =~= out0 + spec_urldecode(
                            rem,
                        ));
                    }
                    i += 3;
                }
            }
            if plain {
                out.push(c);
                proof {
                    assert(rem.drop_first() =~= b@.skip(i + 1));
                    if rem[0] == 37 && rem.len() >= 3 && is_hexdig(rem[1]) && is_hexdig(rem[2]) {
                        assert(false);
                    }
                    assert(spec_urldecode(rem) == seq![rem[0]] + spec_urldecode(rem.drop_first()));
                    assert(out@ + spec_urldecode(b@.skip(i + 1)) =~= out0 + spec_urldecode(rem));
                }
                i += 1;
            }
        }
    }
    proof {
        assert(b@.skip(n as int) =~= Seq::<u8>::empty());
        assert(out@ =~= out@ + spec_urldecode(Seq::<u8>::empty()));
    }
    out
}

/// Decoding of one form key or value: percent-decode the UTF-8 bytes, then
/// read the decoded bytes back as (lossy) UTF-8.
pub open spec fn spec_decode_piece(q: Seq<char>) -> Seq<char> {
    utf8_lossy(spec_urldecode(encode_utf8(q)))
}

/// The key/value pair of one non-empty `&`-separated piece: split at the
/// first `=`; a piece without `=` is a key with an empty value.
pub open spec fn spec_pair(p: Seq<char>) -> (Seq<char>, Seq<char>) {
    let j = find_char(p, '=');
    if j < 0 {
        (spec_decode_piece(p), Seq::<char>::empty())
    } else {
        (spec_decode_piece(p.take(j)), spec_decode_piece(p.skip(j + 1)))
    }
}

/// The pairs of a piece list, empty pieces skipped.
pub open spec fn pairs_of_pieces(ps: Seq<Seq<char>>) -> Seq<(Seq<char>, Seq<char>)>
    decreases ps.len(),
{
    if ps.len() == 0 {
        Seq::<(Seq<char>, Seq<char>)>::empty()
    } else if ps.last().len() == 0 {
        pairs_of_pieces(ps.drop_last())
    } else {
        pairs_of_pieces(ps.drop_last()).push(spec_pair(ps.last()))
    }
}

/// All key/value pairs of a form body given as characters.
pub open spec fn spec_form_pairs(s: Seq<char>) -> Seq<(Seq<char>, Seq<char>)> {
    pairs_of_pieces(spec_split(s, '&'))
}

/// Does this content type announce a urlencoded form?
pub open spec fn form_content_type(h: Seq<(Seq<char>, Seq<char>)>) -> bool {
    match spec_get(h, "content-type"@) {
        Option::Some(v) => "application/x-www-form-urlencoded"@.is_prefix_of(v),
        Option::None => false,
    }
}

fn decode_piece(piece: &str) -> (r: String)
    ensures
        r@ == spec_decode_piece(piece@),
{
    let bytes = piece.as_bytes_vec();
    let dec = urldecode(&bytes);
    bytes_to_string_lossy(&dec)
}

impl Request {
    /// Parse the body as `application/x-www-form-urlencoded` key/value
    /// pairs, in order of appearance, empty pieces skipped. Fails when the
    /// content type does not announce a form, and when the body is not
    /// valid UTF-8.
    pub fn parse_form(&self) -> (r: Result<Vec<(String, String)>, FormParseError>)
        ensures
            match r {
                Result::Ok(pairs) => {
                    &&& form_content_type(self.headers@)
                    &&& valid_utf8(self.body@)
                    &&& params_view(pairs@) == spec_form_pairs(decode_utf8(self.body@))
                },
                Result::Err(e) => match e {
                    FormParseError::InvalidContentType(ct) => {
                        &&& !form_content_type(self.headers@)
                        &&& ct@ == (match spec_get(self.headers@, "content-type"@) {
                            Option::Some(v) => v,
                            Option::None => Seq::<char>::empty(),
                        })
                    },
                    FormParseError::Utf8Error => {
                        &&& form_content_type(self.headers@)
                        &&& !valid_utf8(self.body@)
                    },
                },
            },
    {
        let form_ok: bool = match self.headers.get("content-type") {
            Option::Some(v) => starts_with(v.as_str(), "application/x-www-form-urlencoded"),
            Option::None => false,
        };
        if !form_ok {
            let ct: String = match self.headers.get("content-type") {
                Option::Some(v) => v.clone(),
                Option::None => String::new(),
            };
            return Result::Err(FormParseError::InvalidContentType(ct));
        }
        let s: String = match bytes_to_string(&self.body) {
            Option::Some(s) => s,
            Option::None => {
                return Result::Err(FormParseError::Utf8Error);
            },
        };
        let pieces = split_str(s.as_str(), '&');
        let ghost pviews = pieces@.map_values(|p: String| p@);
        let mut out: Vec<(String, String)> = Vec::new();
        let mut k: usize = 0;
        proof {
            assert(params_view(out@) =~= pairs_of_pieces(pviews.take(0)));
        }
        while k < pieces.len()
            invariant
                pviews == pieces@.map_values(|p: String| p@),
                k <= pieces@.len(),
                params_view(out@) == pairs_of_pieces(pviews.take(k as int)),
            decreases pieces@.len() - k,
        {
            let piece = &pieces[k];
            let ghost out0 = out@;
            proof {
                assert(pviews.take(k + 1).drop_last() =~= pviews.take(k as int));
                assert(pviews.take(k + 1).last() == piece@);
            }
            let plen = piece.as_str().unicode_len();
            if plen > 0 {
                match find_char_exec(piece.as_str(), '=') {
                    Option::Some(j) => {
                        let keypart = piece.as_str().substring_char(0, j);
                        let valpart = piece.as_str().substring_char(j + 1, plen);
                        let key = decode_piece(keypart);
                        let value = decode_piece(valpart);
                        out.push((key, value));
                        proof {
                            assert(keypart@ =~= piece@.take(j as int));
                            assert(valpart@ =~= piece@.skip(j + 1));
                            assert(params_view(out@) =~= params_view(out0).push(
                                spec_pair(piece@),
                            ));
                        }
                    },
                    Option::None => {
                        let key = decode_piece(piece.as_str());
                        out.push((key, String::new()));
                        proof {
                            assert(params_view(out@) =~= params_view(out0).push(
                                spec_pair(piece@),
                            ));
                        }
                    },
                }
            }
            k += 1;
        }
        proof {
            assert(pviews.take(pieces@.len() as int) =~= pviews);
        }
        Result::Ok(out)
    }
}

} // verus!
