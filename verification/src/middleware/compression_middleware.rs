//! Response-compression middleware: picks the best algorithm the client
//! accepts, and compresses eligible response bodies (buffered ones above a
//! size threshold, streamed ones chunk by chunk), setting
//! `Content-Encoding` and `Vary` and dropping any stale `Content-Length`.

use std::io::Write;
use vstd::prelude::*;

verus! {

use vstd::string::{StringExecFns, StrSliceExecFns};
use crate::error::WebError;
use crate::headers::{spec_contains, spec_get, spec_insert, spec_remove};
use crate::middleware::{BeforeOutcome, Middleware, MwCtx};
use crate::request::Request;
use crate::response::{chunk_views, concat_chunks, Body, Response};
use crate::text::{eq_ignore_case, lower_seq, spec_split, spec_trim, split_str, starts_with,
    trim_str};

/// Compression algorithms this middleware can apply.
#[derive(Debug, Clone, Copy, PartialEq, Eq, Structural)]
pub enum CompressionAlgorithm {
    /// Gzip (RFC 1952), the widely supported default.
    Gzip,
}

impl CompressionAlgorithm {
    /// The token used in `Accept-Encoding` and `Content-Encoding`.
    pub open spec fn spec_encoding_name(self) -> Seq<char> {
        "gzip"@
    }

    /// The token used in `Accept-Encoding` and `Content-Encoding`.
    pub fn encoding_name(&self) -> (r: &'static str)
        ensures
            r@ == self.spec_encoding_name(),
    {
        "gzip"
    }
}

/// Configuration of the compression middleware.
#[derive(Clone)]
pub struct CompressionConfig {
    /// Compression level, 0 (none) to 9 (best).
    pub level: u32,
    /// Smallest buffered body worth compressing, in bytes.
    pub min_size: usize,
    /// Algorithms in order of preference.
    pub algorithms: Vec<CompressionAlgorithm>,
    /// Content-type prefixes that are compressed (when filtering is on).
    pub compress_types: Vec<String>,
    /// Whether the content type restricts compression at all.
    pub filter_content_types: bool,
}

/// The content-type prefixes compressed by default.
pub open spec fn default_compress_types() -> Seq<Seq<char>> {
    seq![
        "text/"@,
        "application/json"@,
        "application/javascript"@,
        "application/xml"@,
        "application/rss+xml"@,
        "application/atom+xml"@,
        "image/svg+xml"@,
    ]
}

/// The views of a list of owned content-type prefixes.
pub open spec fn type_views(ts: Seq<String>) -> Seq<Seq<char>> {
    ts.map_values(|t: String| t@)
}

impl CompressionConfig {
    /// The default configuration: level 6, 1 KiB threshold, gzip only, the
    /// usual text-like content types.
    pub fn new() -> (r: CompressionConfig)
        ensures
            r.level == 6,
            r.min_size == 1024,
            r.algorithms@ == seq![CompressionAlgorithm::Gzip],
            type_views(r.compress_types@) == default_compress_types(),
            r.filter_content_types,
    {
        let mut algorithms: Vec<CompressionAlgorithm> = Vec::new();
        algorithms.push(CompressionAlgorithm::Gzip);
        let mut compress_types: Vec<String> = Vec::new();
        compress_types.push("text/".to_owned());
        compress_types.push("application/json".to_owned());
        compress_types.push("application/javascript".to_owned());
        compress_types.push("application/xml".to_owned());
        compress_types.push("application/rss+xml".to_owned());
        compress_types.push("application/atom+xml".to_owned());
        compress_types.push("image/svg+xml".to_owned());
        let r = CompressionConfig {
            level: 6,
            min_size: 1024,
            algorithms,
            compress_types,
            filter_content_types: true,
        };
        proof {
            assert(r.algorithms@ =~= seq![CompressionAlgorithm::Gzip]);
            assert(type_views(r.compress_types@) =~= default_compress_types());
        }
        r
    }

    /// Set the compression level; values above 9 are clamped to 9.
    pub fn level(self, level: u32) -> (r: CompressionConfig)
        ensures
            r.level == (if level < 9 {
                level
            } else {
                9u32
            }),
            r.min_size == self.min_size,
            r.algorithms == self.algorithms,
            r.compress_types == self.compress_types,
            r.filter_content_types == self.filter_content_types,
    {
        let lv: u32 = if level < 9 {
            level
        } else {
            9
        };
        CompressionConfig { level: lv, ..self }
    }

    /// Set the smallest buffered body worth compressing.
    pub fn min_size(self, size: usize) -> (r: CompressionConfig)
        ensures
            r == (CompressionConfig { min_size: size, ..self }),
    {
        CompressionConfig { min_size: size, ..self }
    }

    /// Add a content-type prefix to compress.
    pub fn compress_type(self, content_type: &str) -> (r: CompressionConfig)
        ensures
            r.compress_types@.len() == self.compress_types@.len() + 1,
            r.compress_types@.drop_last() == self.compress_types@,
            r.compress_types@.last()@ == content_type@,
            r.level == self.level,
            r.min_size == self.min_size,
            r.algorithms == self.algorithms,
            r.filter_content_types == self.filter_content_types,
    {
        let mut r = self;
        r.compress_types.push(content_type.to_owned());
        proof {
            assert(r.compress_types@.drop_last() =~= self.compress_types@);
        }
        r
    }

    /// Set the algorithm preference order.
    pub fn algorithms(self, algorithms: Vec<CompressionAlgorithm>) -> (r: CompressionConfig)
        ensures
            r == (CompressionConfig { algorithms, ..self }),
    {
        CompressionConfig { algorithms, ..self }
    }

    /// Switch content-type filtering on or off.
    pub fn filter_content_types(self, filter: bool) -> (r: CompressionConfig)
        ensures
            r == (CompressionConfig { filter_content_types: filter, ..self }),
    {
        CompressionConfig { filter_content_types: filter, ..self }
    }

    /// Compress every content type.
    pub fn compress_all_types(self) -> (r: CompressionConfig)
        ensures
            r == (CompressionConfig { filter_content_types: false, ..self }),
    {
        CompressionConfig { filter_content_types: false, ..self }
    }
}

impl Default for CompressionConfig {
    fn default() -> (r: CompressionConfig)
        ensures
            r.level == 6,
            r.min_size == 1024,
            r.algorithms@ == seq![CompressionAlgorithm::Gzip],
            type_views(r.compress_types@) == default_compress_types(),
            r.filter_content_types,
    {
        CompressionConfig::new()
    }
}

/// Does an `Accept-Encoding` header value accept this token? Comma-split,
/// trimmed, case-insensitive; `*` accepts anything.
pub open spec fn accepts_token(hdr: Seq<char>, token: Seq<char>) -> bool {
    exists|i: int|
        0 <= i < spec_split(hdr, ',').len() && {
            let piece = lower_seq(spec_trim(#[trigger] spec_split(hdr, ',')[i]));
            piece == lower_seq(token) || piece == "*"@
        }
}

/// Does the request accept this encoding? Absent header accepts nothing.
pub open spec fn spec_accepts_encoding(req: Request, token: Seq<char>) -> bool {
    match spec_get(req.headers@, "accept-encoding"@) {
        Option::Some(v) => accepts_token(v, token),
        Option::None => false,
    }
}

/// The first configured algorithm the client accepts.
pub open spec fn spec_choose(algs: Seq<CompressionAlgorithm>, req: Request) -> Option<
    CompressionAlgorithm,
>
    decreases algs.len(),
{
    if algs.len() == 0 {
        Option::None
    } else if spec_accepts_encoding(req, algs[0].spec_encoding_name()) {
        Option::Some(algs[0])
    } else {
        spec_choose(algs.drop_first(), req)
    }
}

/// Middleware that compresses eligible responses.
pub struct CompressionMiddleware {
    pub config: CompressionConfig,
}

impl CompressionMiddleware {
    /// Compression middleware with the default configuration.
    pub fn new() -> (r: CompressionMiddleware)
        ensures
            r.config.level == 6,
            r.config.min_size == 1024,
            r.config.algorithms@ == seq![CompressionAlgorithm::Gzip],
            type_views(r.config.compress_types@) == default_compress_types(),
            r.config.filter_content_types,
    {
        CompressionMiddleware { config: CompressionConfig::new() }
    }

    /// Compression middleware with the given configuration.
    pub fn with_config(config: CompressionConfig) -> (r: CompressionMiddleware)
        ensures
            r.config == config,
    {
        CompressionMiddleware { config }
    }
}

impl Default for CompressionMiddleware {
    fn default() -> (r: CompressionMiddleware)
        ensures
            r.config.level == 6,
            r.config.min_size == 1024,
            r.config.algorithms@ == seq![CompressionAlgorithm::Gzip],
            type_views(r.config.compress_types@) == default_compress_types(),
            r.config.filter_content_types,
    {
        CompressionMiddleware::new()
    }
}

/// Should this content type be compressed under this configuration?
pub open spec fn spec_type_allowed(cfg: CompressionConfig, ct: Seq<char>) -> bool {
    if !cfg.filter_content_types {
        true
    } else if cfg.compress_types@.len() == 0 {
        true
    } else {
        exists|i: int|
            0 <= i < cfg.compress_types@.len() && (#[trigger] cfg.compress_types@[i])@
                .is_prefix_of(ct)
    }
}

/// Does the response itself allow compression: no `Content-Encoding` yet,
/// an allowed (or unfiltered) content type, and a buffered body at least
/// `min_size` bytes long (streamed bodies have no size gate)?
pub open spec fn spec_response_allows(cfg: CompressionConfig, res: Response) -> bool {
    &&& !spec_contains(res.headers@, "content-encoding"@)
    &&& match spec_get(res.headers@, "content-type"@) {
        Option::Some(ct) => spec_type_allowed(cfg, ct),
        Option::None => !cfg.filter_content_types,
    }
    &&& match res.body {
        Body::Bytes(b) => b@.len() >= cfg.min_size,
        Body::Stream(_) => true,
    }
}

/// What decompressing a byte sequence as gzip yields, when it is a valid
/// gzip stream of some payload.
pub uninterp spec fn gunzip_of(b: Seq<u8>) -> Option<Seq<u8>>;

/// A gzip encoder writing into an owned buffer. Verus cannot hold the
/// encoder type itself (its type parameter is bound by `std::io::Write`),
/// so it lives in this opaque wrapper; `gz_fed` and `gz_out` name what it
/// holds.
#[verifier::external_body]
pub struct GzWriter {
    inner: flate2::write::GzEncoder<Vec<u8>>,
}

/// The bytes fed into a gzip encoder so far.
pub uninterp spec fn gz_fed(e: GzWriter) -> Seq<u8>;

/// The compressed bytes already taken out of a gzip encoder.
pub uninterp spec fn gz_out(e: GzWriter) -> Seq<u8>;

/// Relies on `flate2::write::GzEncoder::new` with a fresh buffer: nothing
/// fed, nothing taken out yet.
#[verifier::external_body]
fn gz_new(level: u32) -> (e: GzWriter)
    requires
        level <= 9,
    ensures
        gz_fed(e) == Seq::<u8>::empty(),
        gz_out(e) == Seq::<u8>::empty(),
{
    GzWriter { inner: flate2::write::GzEncoder::new(Vec::new(), flate2::Compression::new(level)) }
}

/// Relies on `std::io::Write::write_all` on a `GzEncoder<Vec<u8>>`: all of
/// `chunk` is consumed (a `Vec` sink cannot fail), compressed output stays
/// buffered inside.
#[verifier::external_body]
fn gz_write(e: &mut GzWriter, chunk: &Vec<u8>)
    ensures
        gz_fed(*final(e)) == gz_fed(*old(e)) + chunk@,
        gz_out(*final(e)) == gz_out(*old(e)),
{
    let _ = e.inner.write_all(chunk.as_slice());
}

/// Relies on `flate2::write::GzEncoder::get_mut`: taking the buffered
/// bytes moves them out of the encoder's sink without touching its state.
#[verifier::external_body]
fn gz_take(e: &mut GzWriter) -> (r: Vec<u8>)
    ensures
        gz_fed(*final(e)) == gz_fed(*old(e)),
        gz_out(*final(e)) == gz_out(*old(e)) + r@,
{
    std::mem::take(e.inner.get_mut())
}

/// Relies on `flate2::write::GzEncoder::finish`: the bytes taken out plus
/// what `finish` returns form one complete gzip stream of everything fed
/// in (a `Vec` sink cannot fail).
#[verifier::external_body]
fn gz_finish(e: GzWriter) -> (r: Vec<u8>)
    ensures
        gunzip_of(gz_out(e) + r@) == Option::Some(gz_fed(e)),
{
    match e.inner.finish() {
        Ok(v) => v,
        Err(_) => Vec::new(),
    }
}

/// Compress a buffered body in one piece; the result decompresses back to
/// the input.
pub fn gzip_bytes(data: &Vec<u8>, level: u32) -> (r: Vec<u8>)
    requires
        level <= 9,
    ensures
        gunzip_of(r@) == Option::Some(data@),
{
    let mut e = gz_new(level);
    gz_write(&mut e, data);
    let ghost fed = gz_fed(e);
    let ghost pre = gz_out(e);
    let r = gz_finish(e);
    proof {
        assert(pre + r@ =~= r@);
        assert(fed =~= data@);
    }
    r
}

/// Compress a chunked body chunk by chunk: each input chunk yields the
/// output buffered so far, and a final flush chunk ends the stream. The
/// concatenated output decompresses back to the concatenated input.
pub fn gzip_chunks(chunks: &Vec<Vec<u8>>, level: u32) -> (r: Vec<Vec<u8>>)
    requires
        level <= 9,
    ensures
        gunzip_of(concat_chunks(chunk_views(r@))) == Option::Some(
            concat_chunks(chunk_views(chunks@)),
        ),
{
    let mut e = gz_new(level);
    let mut out: Vec<Vec<u8>> = Vec::new();
    let mut k: usize = 0;
    proof {
        assert(chunk_views(chunks@).take(0) =~= Seq::<Seq<u8>>::empty());
        assert(chunk_views(out@) =~= Seq::<Seq<u8>>::empty());
    }
    while k < chunks.len()
        invariant
            k <= chunks@.len(),
            level <= 9,
            gz_fed(e) == concat_chunks(chunk_views(chunks@).take(k as int)),
            gz_out(e) == concat_chunks(chunk_views(out@)),
        decreases chunks@.len() - k,
    {
        let ghost fed0 = gz_fed(e);
        let ghost out0 = out@;
        gz_write(&mut e, &chunks[k]);
        let piece = gz_take(&mut e);
        out.push(piece);
        proof {
            let cv = chunk_views(chunks@);
            assert(cv.take(k + 1).drop_last() =~= cv.take(k as int));
            assert(cv.take(k + 1).last() == chunks@[k as int]@);
            assert(chunk_views(out@).drop_last() =~= chunk_views(out0));
            assert(chunk_views(out@).last() == piece@);
        }
        k += 1;
    }
    let ghost fed = gz_fed(e);
    let ghost taken = gz_out(e);
    let last = gz_finish(e);
    let ghost out1 = out@;
    out.push(last);
    proof {
        assert(chunk_views(chunks@).take(chunks@.len() as int) =~= chunk_views(chunks@));
        assert(chunk_views(out@).drop_last() =~= chunk_views(out1));
        assert(chunk_views(out@).last() == last@);
        assert(concat_chunks(chunk_views(out@)) == taken + last@);
    }
    out
}

/// The headers of a compressed response: `Content-Encoding` and `Vary`
/// set, any `Content-Length` dropped.
pub open spec fn compressed_headers(
    h: Seq<(Seq<char>, Seq<char>)>,
    token: Seq<char>,
) -> Seq<(Seq<char>, Seq<char>)> {
    spec_remove(
        spec_insert(spec_insert(h, "content-encoding"@, token), "vary"@, "Accept-Encoding"@),
        "content-length"@,
    )
}

fn accepts_encoding_exec(req: &Request, token: &str) -> (r: bool)
    ensures
        r == spec_accepts_encoding(*req, token@),
{
    match req.headers.get("accept-encoding") {
        Option::Some(v) => {
            let pieces = split_str(v.as_str(), ',');
            let ghost hdr = v@;
            let n = pieces.len();
            let mut i: usize = 0;
            while i < n
                invariant
                    n == pieces@.len(),
                    i <= n,
                    spec_get(req.headers@, "accept-encoding"@) == Option::Some(hdr),
                    pieces@.map_values(|p: String| p@) == spec_split(hdr, ','),
                    forall|j: int|
                        0 <= j < i ==> {
                            let piece = lower_seq(spec_trim(#[trigger] spec_split(hdr, ',')[j]));
                            piece != lower_seq(token@) && piece != "*"@
                        },
                decreases n - i,
            {
                let t = trim_str(pieces[i].as_str());
                if eq_ignore_case(t.as_str(), token) {
                    proof {
                        assert(lower_seq(spec_trim(spec_split(hdr, ',')[i as int])) == lower_seq(
                            token@,
                        ));
                    }
                    return true;
                }
                let star = eq_ignore_case(t.as_str(), "*");
                proof {
                    reveal_strlit("*");
                    assert(lower_seq("*"@) =~= "*"@);
                }
                if star {
                    proof {
                        assert(lower_seq(spec_trim(spec_split(hdr, ',')[i as int])) =~= "*"@);
                    }
                    return true;
                }
                i += 1;
            }
            false
        },
        Option::None => false,
    }
}

impl CompressionMiddleware {
    fn choose_algorithm(&self, req: &Request) -> (r: Option<CompressionAlgorithm>)
        ensures
            r == spec_choose(self.config.algorithms@, *req),
    {
        let n = self.config.algorithms.len();
        let mut i: usize = 0;
        proof {
            assert(self.config.algorithms@.skip(0) =~= self.config.algorithms@);
        }
        while i < n
            invariant
                n == self.config.algorithms@.len(),
                i <= n,
                spec_choose(self.config.algorithms@, *req) == spec_choose(
                    self.config.algorithms@.skip(i as int),
                    *req,
                ),
            decreases n - i,
        {
            let alg = self.config.algorithms[i];
            proof {
                assert(self.config.algorithms@.skip(i as int)[0] == alg);
                assert(self.config.algorithms@.skip(i as int).drop_first() =~= self.config
                    .algorithms@.skip(i + 1));
            }
            if accepts_encoding_exec(req, alg.encoding_name()) {
                return Option::Some(alg);
            }
            i += 1;
        }
        Option::None
    }

    fn type_allowed(&self, ct: &str) -> (r: bool)
        ensures
            r == spec_type_allowed(self.config, ct@),
    {
        if !self.config.filter_content_types {
            return true;
        }
        let n = self.config.compress_types.len();
        if n == 0 {
            return true;
        }
        let mut i: usize = 0;
        while i < n
            invariant
                n == self.config.compress_types@.len(),
                i <= n,
                forall|j: int|
                    0 <= j < i ==> !(#[trigger] self.config.compress_types@[j])@.is_prefix_of(ct@),
            decreases n - i,
        {
            if starts_with(ct, self.config.compress_types[i].as_str()) {
                return true;
            }
            i += 1;
        }
        false
    }

    fn response_allows(&self, res: &Response) -> (r: bool)
        ensures
            r == spec_response_allows(self.config, *res),
    {
        if res.headers.contains_key("content-encoding") {
            return false;
        }
        let type_ok: bool = match res.headers.get("content-type") {
            Option::Some(ct) => self.type_allowed(ct.as_str()),
            Option::None => !self.config.filter_content_types,
        };
        if !type_ok {
            return false;
        }
        match &res.body {
            Body::Bytes(b) => b.len() >= self.config.min_size,
            Body::Stream(_) => true,
        }
    }
}

impl Middleware for CompressionMiddleware {
    open spec fn before_ok(&self, req: Request, out: BeforeOutcome) -> bool {
        out == BeforeOutcome::Proceed(
            req,
            MwCtx::Alg(spec_choose(self.config.algorithms@, req)),
        )
    }

    open spec fn after_ok(
        &self,
        ctx: MwCtx,
        input: Result<Response, WebError>,
        out: Result<Response, WebError>,
    ) -> bool {
        match ctx {
            MwCtx::Alg(choice) => match (choice, input) {
                (Option::Some(alg), Result::Ok(res)) => if spec_response_allows(
                    self.config,
                    res,
                ) {
                    out matches Result::Ok(res2) && {
                        &&& res2.status == res.status
                        &&& res2.headers@ == compressed_headers(
                            res.headers@,
                            alg.spec_encoding_name(),
                        )
                        &&& match (res.body, res2.body) {
                            (Body::Bytes(b), Body::Bytes(b2)) => gunzip_of(b2@)
                                == Option::Some(b@),
                            (Body::Stream(cs), Body::Stream(cs2)) => gunzip_of(
                                concat_chunks(chunk_views(cs2@)),
                            ) == Option::Some(concat_chunks(chunk_views(cs@))),
                            _ => false,
                        }
                    }
                } else {
                    out == input
                },
                _ => out == input,
            },
            _ => out == input,
        }
    }

    fn before(&self, req: Request) -> (out: BeforeOutcome) {
        let choice = self.choose_algorithm(&req);
        BeforeOutcome::Proceed(req, MwCtx::Alg(choice))
    }

    fn after(&self, ctx: MwCtx, input: Result<Response, WebError>) -> (out: Result<
        Response,
        WebError,
    >) {
        match ctx {
            MwCtx::Alg(choice) => match (choice, input) {
                (Option::Some(alg), Result::Ok(res)) => {
                    if self.response_allows(&res) {
                        let level: u32 = if self.config.level < 9 {
                            self.config.level
                        } else {
                            9
                        };
                        let mut res = res;
                        let new_body: Body = match res.body {
                            Body::Bytes(b) => Body::Bytes(gzip_bytes(&b, level)),
                            Body::Stream(cs) => Body::Stream(gzip_chunks(&cs, level)),
                        };
                        res.body = new_body;
                        res.set_header("content-encoding", alg.encoding_name());
                        res.set_header("vary", "Accept-Encoding");
                        res.headers.remove("content-length");
                        Result::Ok(res)
                    } else {
                        Result::Ok(res)
                    }
                },
                (choice, input) => input,
            },
            _ => input,
        }
    }
}

} // verus!
