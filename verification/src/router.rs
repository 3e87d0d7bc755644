//! The router: per-method route patterns with literal, single-segment
//! capture, and trailing wildcard segments; lookup picks the most specific
//! matching pattern (literal over capture over wildcard, position by
//! position).

use vstd::prelude::*;

verus! {

use vstd::string::{StringExecFns, StrSliceExecFns};
use crate::method::Method;
use crate::text::{spec_split, split_str, str_eq};

/// One segment of a route pattern.
pub enum Seg {
    /// Matches exactly this text.
    Lit(String),
    /// Matches any single non-empty segment and binds it to the name.
    Param(String),
    /// Matches the whole non-empty remainder of the path and binds it;
    /// only allowed as the last segment.
    Wild(String),
}

/// A registered route: a method, a parsed pattern, and its handler.
pub struct Route<H> {
    pub method: Method,
    pub segs: Vec<Seg>,
    pub handler: H,
}

/// A path router storing routes in registration order.
pub struct Router<H> {
    pub routes: Vec<Route<H>>,
}

/// The path pieces a pattern is matched against: the `/`-separated pieces
/// after the leading `/`. A path without a leading `/` has none.
pub open spec fn spec_path_parts(path: Seq<char>) -> Option<Seq<Seq<char>>> {
    if path.len() > 0 && path[0] == '/' {
        Option::Some(spec_split(path, '/').drop_first())
    } else {
        Option::None
    }
}

/// Join pieces with a separator (the inverse of splitting).
pub open spec fn spec_join(parts: Seq<Seq<char>>, sep: char) -> Seq<char>
    decreases parts.len(),
{
    if parts.len() == 0 {
        Seq::<char>::empty()
    } else if parts.len() == 1 {
        parts[0]
    } else {
        spec_join(parts.drop_last(), sep) + seq![sep] + parts.last()
    }
}

/// Joining what splitting produced gives the text back: what a trailing
/// wildcard binds (the joined remaining pieces) is exactly the remainder of
/// the path as written.
pub proof fn lemma_join_split(s: Seq<char>, sep: char)
    ensures
        spec_join(spec_split(s, sep), sep) == s,
    decreases s.len(),
{
    crate::text::lemma_split_len(s, sep);
    if s.len() == 0 {
        assert(spec_join(spec_split(s, sep), sep) =~= s);
    } else {
        let s0 = s.drop_last();
        lemma_join_split(s0, sep);
        crate::text::lemma_split_len(s0, sep);
        let ps = spec_split(s0, sep);
        if s.last() == sep {
            assert(spec_split(s, sep) == ps.push(Seq::<char>::empty()));
            assert(ps.push(Seq::<char>::empty()).drop_last() =~= ps);
            assert(spec_join(spec_split(s, sep), sep) =~= s0 + seq![sep]);
            assert(s0 + seq![sep] =~= s);
        } else {
            let upd = ps.update(ps.len() - 1, ps.last().push(s.last()));
            assert(spec_split(s, sep) == upd);
            if ps.len() == 1 {
                assert(upd.len() == 1);
                assert(spec_join(upd, sep) == upd[0]);
                assert(upd[0] =~= s0 + seq![s.last()]);
                assert(s0 + seq![s.last()] =~= s);
            } else {
                assert(upd.drop_last() =~= ps.drop_last());
                assert(upd.last() == ps.last().push(s.last()));
                lemma_join_drop_last(ps, sep);
                assert(spec_join(upd, sep) == spec_join(ps.drop_last(), sep) + seq![sep]
                    + ps.last().push(s.last()));
                assert(spec_join(ps, sep) == spec_join(ps.drop_last(), sep) + seq![sep]
                    + ps.last());
                assert(spec_join(upd, sep) =~= spec_join(ps, sep) + seq![s.last()]);
                assert(spec_join(ps, sep) + seq![s.last()] =~= s0 + seq![s.last()]);
                assert(s0 + seq![s.last()] =~= s);
            }
        }
    }
}

/// Unfolding helper: a multi-piece join ends with its last piece.
proof fn lemma_join_drop_last(ps: Seq<Seq<char>>, sep: char)
    requires
        ps.len() >= 2,
    ensures
        spec_join(ps, sep) == spec_join(ps.drop_last(), sep) + seq![sep] + ps.last(),
{
}

/// Match pattern segments against path pieces; on success, the parameters
/// bound by captures and the wildcard, in segment order.
pub open spec fn spec_match(segs: Seq<Seg>, parts: Seq<Seq<char>>) -> Option<
    Seq<(Seq<char>, Seq<char>)>,
>
    decreases segs.len(),
{
    if segs.len() == 0 {
        if parts.len() == 0 {
            Option::Some(Seq::<(Seq<char>, Seq<char>)>::empty())
        } else {
            Option::None
        }
    } else {
        match segs[0] {
            Seg::Lit(l) => if parts.len() > 0 && parts[0] == l@ {
                spec_match(segs.drop_first(), parts.drop_first())
            } else {
                Option::None
            },
            Seg::Param(name) => if parts.len() > 0 && parts[0].len() > 0 {
                match spec_match(segs.drop_first(), parts.drop_first()) {
                    Option::Some(ps) => Option::Some(seq![(name@, parts[0])] + ps),
                    Option::None => Option::None,
                }
            } else {
                Option::None
            },
            Seg::Wild(name) => if segs.len() == 1 && parts.len() > 0 && spec_join(parts, '/').len()
                > 0 {
                Option::Some(seq![(name@, spec_join(parts, '/'))])
            } else {
                Option::None
            },
        }
    }
}

/// Specificity rank of a segment: literals outrank captures outrank
/// wildcards.
pub open spec fn seg_rank(s: Seg) -> int {
    match s {
        Seg::Lit(_) => 0,
        Seg::Param(_) => 1,
        Seg::Wild(_) => 2,
    }
}

/// `a` is at least as specific as `b`: position by position, an earlier
/// lower rank wins; on a tie of every shared position the shorter pattern
/// is taken as the more specific.
pub open spec fn spec_le(a: Seq<Seg>, b: Seq<Seg>) -> bool
    decreases a.len(),
{
    if a.len() == 0 {
        true
    } else if b.len() == 0 {
        false
    } else if seg_rank(a[0]) < seg_rank(b[0]) {
        true
    } else if seg_rank(a[0]) > seg_rank(b[0]) {
        false
    } else {
        spec_le(a.drop_first(), b.drop_first())
    }
}

/// Specificity is reflexive.
pub proof fn lemma_le_refl(a: Seq<Seg>)
    ensures
        spec_le(a, a),
    decreases a.len(),
{
    if a.len() > 0 {
        lemma_le_refl(a.drop_first());
    }
}

/// Specificity is total: two patterns always compare one way or the other.
pub proof fn lemma_le_total(a: Seq<Seg>, b: Seq<Seg>)
    ensures
        spec_le(a, b) || spec_le(b, a),
    decreases a.len(),
{
    if a.len() > 0 && b.len() > 0 && seg_rank(a[0]) == seg_rank(b[0]) {
        lemma_le_total(a.drop_first(), b.drop_first());
    }
}

/// Specificity is transitive.
pub proof fn lemma_le_trans(a: Seq<Seg>, b: Seq<Seg>, c: Seq<Seg>)
    requires
        spec_le(a, b),
        spec_le(b, c),
    ensures
        spec_le(a, c),
    decreases a.len(),
{
    if a.len() > 0 && b.len() > 0 && c.len() > 0 {
        if seg_rank(a[0]) == seg_rank(b[0]) && seg_rank(b[0]) == seg_rank(c[0]) {
            lemma_le_trans(a.drop_first(), b.drop_first(), c.drop_first());
        }
    }
}

/// Executable specificity comparison.
fn le_exec(a: &Vec<Seg>, b: &Vec<Seg>) -> (r: bool)
    ensures
        r == spec_le(a@, b@),
{
    let n = a.len();
    let m = b.len();
    let mut i: usize = 0;
    proof {
        assert(a@.skip(0) =~= a@);
        assert(b@.skip(0) =~= b@);
    }
    loop
        invariant
            n == a@.len(),
            m == b@.len(),
            i <= n,
            i <= m,
            spec_le(a@, b@) == spec_le(a@.skip(i as int), b@.skip(i as int)),
        decreases n - i,
    {
        proof {
            if i < n && i < m {
                assert(a@.skip(i as int)[0] == a@[i as int]);
                assert(b@.skip(i as int)[0] == b@[i as int]);
                assert(a@.skip(i as int).drop_first() =~= a@.skip(i + 1));
                assert(b@.skip(i as int).drop_first() =~= b@.skip(i + 1));
            }
        }
        if i == n {
            return true;
        }
        if i == m {
            return false;
        }
        let ra = seg_rank_exec(&a[i]);
        let rb = seg_rank_exec(&b[i]);
        if ra < rb {
            return true;
        }
        if ra > rb {
            return false;
        }
        i += 1;
    }
}

fn seg_rank_exec(s: &Seg) -> (r: u8)
    ensures
        r as int == seg_rank(*s),
{
    match s {
        Seg::Lit(_) => 0,
        Seg::Param(_) => 1,
        Seg::Wild(_) => 2,
    }
}

/// Executable join of the pieces from position `pi` on.
pub(crate) fn join_parts(parts: &Vec<String>, pi: usize) -> (r: String)
    requires
        pi <= parts@.len(),
    ensures
        r@ == spec_join(parts@.map_values(|p: String| p@).skip(pi as int), '/'),
{
    let ghost pv = parts@.map_values(|p: String| p@);
    let mut acc = String::new();
    let mut k: usize = pi;
    proof {
        assert(pv.skip(pi as int).take(0) =~= Seq::<Seq<char>>::empty());
        reveal_strlit("/");
    }
    while k < parts.len()
        invariant
            pv == parts@.map_values(|p: String| p@),
            pi <= k <= pv.len(),
            parts@.len() == pv.len(),
            acc@ == spec_join(pv.skip(pi as int).take(k - pi), '/'),
            "/"@ == seq!['/'],
        decreases pv.len() - k,
    {
        let ghost done = pv.skip(pi as int).take(k - pi);
        if k > pi {
            acc.append("/");
        }
        acc.append(parts[k].as_str());
        proof {
            let now = pv.skip(pi as int).take(k - pi + 1);
            assert(now.drop_last() =~= done);
            assert(now.last() == pv[k as int]);
            if k == pi {
                assert(now.len() == 1);
                assert(acc@ =~= spec_join(now, '/'));
            } else {
                assert(now.len() > 1);
                assert(acc@ =~= spec_join(done, '/') + seq!['/'] + pv[k as int]);
            }
        }
        k += 1;
    }
    proof {
        assert(pv.skip(pi as int).take(pv.len() - pi) =~= pv.skip(pi as int));
    }
    acc
}

/// The parameter-list view of an owned parameter vector.
pub open spec fn pv(ps: Seq<(String, String)>) -> Seq<(Seq<char>, Seq<char>)> {
    ps.map_values(|p: (String, String)| (p.0@, p.1@))
}

/// The character-sequence views of a piece vector.
pub open spec fn str_views(ps: Seq<String>) -> Seq<Seq<char>> {
    ps.map_values(|p: String| p@)
}

/// Executable matching of pattern segments (from `si`) against path pieces
/// (from `pi`).
fn match_at(segs: &Vec<Seg>, si: usize, parts: &Vec<String>, pi: usize) -> (r: Option<
    Vec<(String, String)>,
>)
    requires
        si <= segs@.len(),
        pi <= parts@.len(),
    ensures
        match r {
            Option::Some(ps) => spec_match(
                segs@.skip(si as int),
                parts@.map_values(|p: String| p@).skip(pi as int),
            ) == Option::Some(pv(ps@)),
            Option::None => spec_match(
                segs@.skip(si as int),
                parts@.map_values(|p: String| p@).skip(pi as int),
            ) is None,
        },
    decreases segs@.len() - si,
{
    let ghost partsv = parts@.map_values(|p: String| p@);
    let ghost sv = segs@.skip(si as int);
    let ghost pvv = partsv.skip(pi as int);
    if si == segs.len() {
        if pi == parts.len() {
            let empty: Vec<(String, String)> = Vec::new();
            proof {
                assert(pv(empty@) =~= Seq::<(Seq<char>, Seq<char>)>::empty());
            }
            Option::Some(empty)
        } else {
            Option::None
        }
    } else {
        proof {
            assert(sv[0] == segs@[si as int]);
            assert(sv.drop_first() =~= segs@.skip(si + 1));
            if pi < parts@.len() {
                assert(pvv[0] == partsv[pi as int]);
                assert(pvv.drop_first() =~= partsv.skip(pi + 1));
            }
        }
        match &segs[si] {
            Seg::Lit(l) => {
                if pi < parts.len() && str_eq(l.as_str(), parts[pi].as_str()) {
                    match_at(segs, si + 1, parts, pi + 1)
                } else {
                    Option::None
                }
            },
            Seg::Param(name) => {
                if pi < parts.len() && parts[pi].as_str().unicode_len() > 0 {
                    match match_at(segs, si + 1, parts, pi + 1) {
                        Option::Some(ps) => {
                            let ghost ps0 = ps@;
                            let mut ps = ps;
                            ps.insert(0, (name.clone(), parts[pi].clone()));
                            proof {
                                assert(pv(ps@) =~= seq![(name@, pvv[0])] + pv(ps0));
                            }
                            Option::Some(ps)
                        },
                        Option::None => Option::None,
                    }
                } else {
                    Option::None
                }
            },
            Seg::Wild(name) => {
                if si + 1 == segs.len() && pi < parts.len() {
                    let joined = join_parts(parts, pi);
                    if joined.as_str().unicode_len() > 0 {
                        let mut ps: Vec<(String, String)> = Vec::new();
                        ps.push((name.clone(), joined));
                        proof {
                            assert(sv.len() == 1);
                            assert(pv(ps@) =~= seq![(name@, spec_join(pvv, '/'))]);
                        }
                        Option::Some(ps)
                    } else {
                        Option::None
                    }
                } else {
                    Option::None
                }
            },
        }
    }
}

/// Why a route could not be registered.
#[derive(Debug)]
pub enum RouteError {
    /// The pattern text is not well formed (no leading `/`, a malformed
    /// capture, or a wildcard before the last segment).
    InvalidPattern,
    /// A pattern of the same shape is already registered for this method.
    Conflict,
}

/// Does this pattern piece read as this segment?
pub open spec fn seg_of_piece(piece: Seq<char>, seg: Seg) -> bool {
    match seg {
        Seg::Lit(l) => l@ == piece,
        Seg::Param(name) => piece == seq!['{'] + name@ + seq!['}'] && name@.len() > 0,
        Seg::Wild(name) => (piece == seq!['*'] + name@ || piece == seq!['{', '*'] + name@ + seq![
            '}',
        ]) && name@.len() > 0,
    }
}

/// Does this piece spell a wildcard capture?
pub open spec fn is_wild_piece(p: Seq<char>) -> bool {
    ||| p.len() >= 2 && p[0] == '*'
    ||| p.len() >= 4 && p[0] == '{' && p[1] == '*' && p.last() == '}'
}

/// A well-formed pattern piece: a brace capture with a non-empty name, a
/// star capture with a non-empty name, or a literal free of `{`, `}`, `*`.
pub open spec fn piece_valid(p: Seq<char>) -> bool {
    if p.len() >= 2 && p[0] == '{' && p.last() == '}' {
        let inner = p.subrange(1, p.len() - 1);
        if inner.len() >= 1 && inner[0] == '*' {
            inner.len() >= 2
        } else {
            inner.len() >= 1
        }
    } else if p.len() >= 2 && p[0] == '*' {
        true
    } else {
        forall|j: int| 0 <= j < p.len() ==> p[j] != '{' && p[j] != '}' && p[j] != '*'
    }
}

/// A well-formed pattern: a leading `/`, every piece well formed, and a
/// wildcard nowhere but last.
pub open spec fn pattern_valid(pat: Seq<char>) -> bool {
    &&& pat.len() > 0 && pat[0] == '/'
    &&& {
        let pcs = spec_split(pat, '/');
        forall|i: int|
            1 <= i < pcs.len() ==> piece_valid(#[trigger] pcs[i]) && (i < pcs.len() - 1
                ==> !is_wild_piece(pcs[i]))
    }
}

/// These segments read the pattern piece by piece.
pub open spec fn pattern_segs_match(pat: Seq<char>, segs: Seq<Seg>) -> bool {
    let pcs = spec_split(pat, '/');
    segs.len() == pcs.len() - 1 && forall|i: int|
        0 <= i < segs.len() ==> seg_of_piece(pcs[i + 1], #[trigger] segs[i])
}

/// Segments with a wildcard nowhere but last.
pub open spec fn wf_segs(segs: Seq<Seg>) -> bool {
    forall|i: int| 0 <= i < segs.len() - 1 ==> !(segs[i] is Wild)
}

fn classify_piece(piece: &str) -> (r: Option<Seg>)
    ensures
        match r {
            Option::Some(s) => {
                &&& seg_of_piece(piece@, s)
                &&& piece_valid(piece@)
                &&& is_wild_piece(piece@) <==> s is Wild
            },
            Option::None => !piece_valid(piece@),
        },
{
    let n = piece.unicode_len();
    if n >= 2 && piece.get_char(0) == '{' && piece.get_char(n - 1) == '}' {
        let inner = piece.substring_char(1, n - 1);
        let m = inner.unicode_len();
        proof {
            assert(inner@ =~= piece@.subrange(1, n - 1));
        }
        if m >= 1 && inner.get_char(0) == '*' {
            if m >= 2 {
                let name = inner.substring_char(1, m);
                proof {
                    assert(piece@ =~= seq!['{', '*'] + name@ + seq!['}']);
                    assert(piece@[1] == '*');
                }
                Option::Some(Seg::Wild(name.to_owned()))
            } else {
                Option::None
            }
        } else if m >= 1 {
            let name = inner.to_owned();
            proof {
                assert(piece@ =~= seq!['{'] + name@ + seq!['}']);
                assert(!(piece@.len() >= 2 && piece@[0] == '*'));
                if piece@.len() >= 4 && piece@[1] == '*' {
                    assert(inner@[0] == '*');
                    assert(false);
                }
            }
            Option::Some(Seg::Param(name))
        } else {
            Option::None
        }
    } else if n >= 2 && piece.get_char(0) == '*' {
        let name = piece.substring_char(1, n);
        proof {
            assert(piece@ =~= seq!['*'] + name@);
        }
        Option::Some(Seg::Wild(name.to_owned()))
    } else {
        let mut i: usize = 0;
        while i < n
            invariant
                n == piece@.len(),
                i <= n,
                !(piece@.len() >= 2 && piece@[0] == '{' && piece@.last() == '}'),
                !(piece@.len() >= 2 && piece@[0] == '*'),
                forall|j: int|
                    0 <= j < i ==> piece@[j] != '{' && piece@[j] != '}' && piece@[j] != '*',
            decreases n - i,
        {
            let c = piece.get_char(i);
            if c == '{' || c == '}' || c == '*' {
                proof {
                    assert(!piece_valid(piece@));
                }
                return Option::None;
            }
            i += 1;
        }
        proof {
            assert(piece_valid(piece@));
            assert(!is_wild_piece(piece@));
        }
        Option::Some(Seg::Lit(piece.to_owned()))
    }
}

/// Do two segments match exactly the same piece shapes?
pub open spec fn seg_shape_eq(a: Seg, b: Seg) -> bool {
    match (a, b) {
        (Seg::Lit(x), Seg::Lit(y)) => x@ == y@,
        (Seg::Param(_), Seg::Param(_)) => true,
        (Seg::Wild(_), Seg::Wild(_)) => true,
        _ => false,
    }
}

/// Patterns conflict when they have the same length and, position by
/// position, the same shape (capture names aside).
pub open spec fn shape_eq(a: Seq<Seg>, b: Seq<Seg>) -> bool {
    a.len() == b.len() && forall|i: int| 0 <= i < a.len() ==> seg_shape_eq(a[i], b[i])
}

fn shape_eq_exec(a: &Vec<Seg>, b: &Vec<Seg>) -> (r: bool)
    ensures
        r == shape_eq(a@, b@),
{
    if a.len() != b.len() {
        return false;
    }
    let n = a.len();
    let mut i: usize = 0;
    while i < n
        invariant
            n == a@.len() == b@.len(),
            i <= n,
            forall|j: int| 0 <= j < i ==> seg_shape_eq(a@[j], b@[j]),
        decreases n - i,
    {
        let same = match (&a[i], &b[i]) {
            (Seg::Lit(x), Seg::Lit(y)) => str_eq(x.as_str(), y.as_str()),
            (Seg::Param(_), Seg::Param(_)) => true,
            (Seg::Wild(_), Seg::Wild(_)) => true,
            _ => false,
        };
        if !same {
            return false;
        }
        i += 1;
    }
    true
}

/// The matched-route relation `find` guarantees: some route `i` for
/// `m_used` matches the pieces with exactly these parameters and this
/// handler, and no other matching route of that method is more specific.
pub open spec fn find_match_ok<H>(
    routes: Seq<Route<H>>,
    m_used: Method,
    parts: Seq<Seq<char>>,
    h: H,
    params: Seq<(Seq<char>, Seq<char>)>,
) -> bool {
    exists|i: int|
        0 <= i < routes.len() && routes[i].method == m_used && (#[trigger] spec_match(
            routes[i].segs@,
            parts,
        )) == Option::Some(params) && h == routes[i].handler && forall|j: int|
            0 <= j < routes.len() && routes[j].method == m_used && (#[trigger] spec_match(
                routes[j].segs@,
                parts,
            )) is Some ==> spec_le(routes[i].segs@, routes[j].segs@)
}

/// What a successful lookup means: the request method matched directly,
/// or a HEAD request fell back to the GET routes.
pub open spec fn find_ok<H>(
    routes: Seq<Route<H>>,
    method: Method,
    path: Seq<char>,
    h: H,
    params: Seq<(Seq<char>, Seq<char>)>,
) -> bool {
    match spec_path_parts(path) {
        Option::Some(parts) => {
            let m_used = if any_match(routes, method, parts) {
                method
            } else {
                Method::Get
            };
            &&& m_used == method || method is Head
            &&& find_match_ok(routes, m_used, parts, h, params)
        },
        Option::None => false,
    }
}

/// What a failed lookup means: no route matches under the request method,
/// nor under GET for a HEAD request; a path without a leading `/` never
/// matches.
pub open spec fn find_none_ok<H>(routes: Seq<Route<H>>, method: Method, path: Seq<char>) -> bool {
    match spec_path_parts(path) {
        Option::Some(parts) => !any_match(routes, method, parts) && (method is Head
            ==> !any_match(routes, Method::Get, parts)),
        Option::None => true,
    }
}

/// Some route for `m` matches these path pieces.
pub open spec fn any_match<H>(routes: Seq<Route<H>>, m: Method, parts: Seq<Seq<char>>) -> bool {
    exists|i: int|
        0 <= i < routes.len() && routes[i].method == m && (#[trigger] spec_match(
            routes[i].segs@,
            parts,
        )) is Some
}

/// A conflicting route for `m` with this shape is registered.
pub open spec fn has_conflict<H>(routes: Seq<Route<H>>, m: Method, segs: Seq<Seg>) -> bool {
    exists|i: int|
        0 <= i < routes.len() && routes[i].method == m && shape_eq(
            #[trigger] routes[i].segs@,
            segs,
        )
}

impl<H> Router<H> {
    /// An empty router.
    pub fn new() -> (r: Router<H>)
        ensures
            r.routes@ == Seq::<Route<H>>::empty(),
    {
        let r = Router { routes: Vec::new() };
        proof {
            assert(r.routes@ =~= Seq::<Route<H>>::empty());
        }
        r
    }

    /// Register a handler under a method and pattern. Fails on a malformed
    /// pattern and on a pattern that conflicts (same shape) with one already
    /// registered for the same method; on failure the router is unchanged.
    pub fn add(&mut self, method: Method, pattern: &str, handler: H) -> (r: Result<(), RouteError>)
        ensures
            match r {
                Result::Ok(_) => {
                    &&& final(self).routes@.len() == old(self).routes@.len() + 1
                    &&& final(self).routes@.drop_last() == old(self).routes@
                    &&& {
                        let nr = final(self).routes@.last();
                        &&& nr.method == method
                        &&& nr.handler == handler
                        &&& wf_segs(nr.segs@)
                        &&& !has_conflict(old(self).routes@, method, nr.segs@)
                        &&& {
                            let pieces = spec_split(pattern@, '/');
                            &&& pattern@.len() > 0 && pattern@[0] == '/'
                            &&& nr.segs@.len() == pieces.len() - 1
                            &&& forall|i: int|
                                0 <= i < nr.segs@.len() ==> seg_of_piece(
                                    pieces[i + 1],
                                    #[trigger] nr.segs@[i],
                                )
                        }
                    }
                },
                Result::Err(e) => {
                    &&& final(self).routes@ == old(self).routes@
                    &&& match e {
                        RouteError::InvalidPattern => !pattern_valid(pattern@),
                        RouteError::Conflict => {
                            &&& pattern_valid(pattern@)
                            &&& exists|segs: Seq<Seg>|
                                #[trigger] pattern_segs_match(pattern@, segs) && has_conflict(
                                    old(self).routes@,
                                    method,
                                    segs,
                                )
                        },
                    }
                },
            },
    {
        let plen = pattern.unicode_len();
        if plen == 0 || pattern.get_char(0) != '/' {
            return Result::Err(RouteError::InvalidPattern);
        }
        let pieces = split_str(pattern, '/');
        let ghost piecesv = pieces@.map_values(|p: String| p@);
        let mut segs: Vec<Seg> = Vec::new();
        let mut k: usize = 1;
        proof {
            crate::text::lemma_split_len(pattern@, '/');
        }
        while k < pieces.len()
            invariant
                piecesv == pieces@.map_values(|p: String| p@),
                piecesv == spec_split(pattern@, '/'),
                1 <= k <= pieces@.len(),
                segs@.len() == k - 1,
                forall|i: int|
                    0 <= i < segs@.len() ==> seg_of_piece(piecesv[i + 1], #[trigger] segs@[i]),
                forall|i: int| 0 <= i < segs@.len() ==> piece_valid(#[trigger] piecesv[i + 1]),
                forall|i: int|
                    0 <= i < segs@.len() ==> (is_wild_piece(#[trigger] piecesv[i + 1]) <==> segs@[i]
                        is Wild),
                forall|i: int| 0 <= i < segs@.len() - 1 ==> !(segs@[i] is Wild),
            decreases pieces@.len() - k,
        {
            if segs.len() > 0 {
                let last_wild = match &segs[segs.len() - 1] {
                    Seg::Wild(_) => true,
                    _ => false,
                };
                if last_wild {
                    proof {
                        assert(is_wild_piece(piecesv[k - 1]));
                        assert(k - 1 < piecesv.len() - 1);
                        assert(!pattern_valid(pattern@));
                    }
                    return Result::Err(RouteError::InvalidPattern);
                }
            }
            match classify_piece(pieces[k].as_str()) {
                Option::Some(s) => {
                    segs.push(s);
                },
                Option::None => {
                    proof {
                        assert(!piece_valid(piecesv[k as int]));
                        assert(!pattern_valid(pattern@));
                    }
                    return Result::Err(RouteError::InvalidPattern);
                },
            }
            k += 1;
        }
        proof {
            assert forall|x: int|
                1 <= x < piecesv.len() implies piece_valid(#[trigger] piecesv[x]) && (x
                < piecesv.len() - 1 ==> !is_wild_piece(piecesv[x])) by {
                assert(piece_valid(piecesv[(x - 1) + 1]));
                if x < piecesv.len() - 1 {
                    assert(!(segs@[x - 1] is Wild));
                    assert(is_wild_piece(piecesv[(x - 1) + 1]) <==> segs@[x - 1] is Wild);
                }
            }
            assert(pattern_valid(pattern@));
            assert(pattern_segs_match(pattern@, segs@));
        }
        let n = self.routes.len();
        let mut i: usize = 0;
        while i < n
            invariant
                n == self.routes@.len(),
                i <= n,
                pattern_valid(pattern@),
                pattern_segs_match(pattern@, segs@),
                piecesv == spec_split(pattern@, '/'),
                segs@.len() == piecesv.len() - 1,
                forall|x: int|
                    0 <= x < segs@.len() ==> seg_of_piece(piecesv[x + 1], #[trigger] segs@[x]),
                forall|x: int| 0 <= x < segs@.len() - 1 ==> !(segs@[x] is Wild),
                forall|j: int|
                    0 <= j < i ==> !(self.routes@[j].method == method && shape_eq(
                        #[trigger] self.routes@[j].segs@,
                        segs@,
                    )),
            decreases n - i,
        {
            let rt = &self.routes[i];
            if rt.method == method && shape_eq_exec(&rt.segs, &segs) {
                proof {
                    assert(has_conflict(self.routes@, method, segs@));
                }
                return Result::Err(RouteError::Conflict);
            }
            i += 1;
        }
        let ghost old_routes = self.routes@;
        let ghost new_segs = segs@;
        self.routes.push(Route { method, segs, handler });
        proof {
            assert(self.routes@.drop_last() =~= old_routes);
            assert(!has_conflict(old_routes, method, new_segs));
        }
        Result::Ok(())
    }

    /// Register a handler for GET.
    pub fn get(&mut self, pattern: &str, handler: H) -> (r: Result<(), RouteError>)
        ensures
            match r {
                Result::Ok(_) => {
                    &&& final(self).routes@.len() == old(self).routes@.len() + 1
                    &&& final(self).routes@.drop_last() == old(self).routes@
                    &&& final(self).routes@.last().method == Method::Get
                    &&& final(self).routes@.last().handler == handler
                },
                Result::Err(_) => final(self).routes@ == old(self).routes@,
            },
    {
        self.add(Method::Get, pattern, handler)
    }

    /// Register a handler for POST.
    pub fn post(&mut self, pattern: &str, handler: H) -> (r: Result<(), RouteError>)
        ensures
            match r {
                Result::Ok(_) => {
                    &&& final(self).routes@.len() == old(self).routes@.len() + 1
                    &&& final(self).routes@.drop_last() == old(self).routes@
                    &&& final(self).routes@.last().method == Method::Post
                    &&& final(self).routes@.last().handler == handler
                },
                Result::Err(_) => final(self).routes@ == old(self).routes@,
            },
    {
        self.add(Method::Post, pattern, handler)
    }

    /// The most specific route for `m` matching these pieces, with its
    /// bound parameters.
    fn find_best(&self, m: Method, parts: &Vec<String>) -> (r: Option<(usize, Vec<(String, String)>)>)
        ensures
            match r {
                Option::Some((i, ps)) => {
                    &&& i < self.routes@.len()
                    &&& self.routes@[i as int].method == m
                    &&& spec_match(
                        self.routes@[i as int].segs@,
                        str_views(parts@),
                    ) == Option::Some(pv(ps@))
                    &&& forall|j: int|
                        0 <= j < self.routes@.len() && self.routes@[j].method == m
                            && (#[trigger] spec_match(
                            self.routes@[j].segs@,
                            str_views(parts@),
                        )) is Some ==> spec_le(self.routes@[i as int].segs@, self.routes@[j].segs@)
                },
                Option::None => !any_match(self.routes@, m, str_views(parts@)),
            },
    {
        let ghost partsv = parts@.map_values(|p: String| p@);
        let n = self.routes.len();
        let mut best: Option<(usize, Vec<(String, String)>)> = Option::None;
        let mut i: usize = 0;
        while i < n
            invariant
                n == self.routes@.len(),
                i <= n,
                partsv == parts@.map_values(|p: String| p@),
                parts@.len() <= partsv.len(),
                match best {
                    Option::Some((b, ps)) => {
                        &&& b < i
                        &&& self.routes@[b as int].method == m
                        &&& spec_match(self.routes@[b as int].segs@, partsv) == Option::Some(
                            pv(ps@),
                        )
                        &&& forall|j: int|
                            0 <= j < i && self.routes@[j].method == m && (#[trigger] spec_match(
                                self.routes@[j].segs@,
                                partsv,
                            )) is Some ==> spec_le(
                                self.routes@[b as int].segs@,
                                self.routes@[j].segs@,
                            )
                    },
                    Option::None => forall|j: int|
                        0 <= j < i ==> !(self.routes@[j].method == m && (#[trigger] spec_match(
                            self.routes@[j].segs@,
                            partsv,
                        )) is Some),
                },
            decreases n - i,
        {
            let rt = &self.routes[i];
            if rt.method == m {
                proof {
                    assert(rt.segs@.skip(0) =~= rt.segs@);
                    assert(partsv.skip(0) =~= partsv);
                }
                match match_at(&rt.segs, 0, parts, 0) {
                    Option::Some(ps) => {
                        match best {
                            Option::None => {
                                proof {
                                    lemma_le_refl(rt.segs@);
                                }
                                best = Option::Some((i, ps));
                            },
                            Option::Some((b, bps)) => {
                                if le_exec(&self.routes[b].segs, &rt.segs) {
                                    proof {
                                        assert(spec_le(
                                            self.routes@[b as int].segs@,
                                            self.routes@[i as int].segs@,
                                        ));
                                    }
                                    best = Option::Some((b, bps));
                                } else {
                                    proof {
                                        lemma_le_total(
                                            self.routes@[b as int].segs@,
                                            self.routes@[i as int].segs@,
                                        );
                                        assert forall|j: int|
                                            0 <= j < i + 1 && self.routes@[j].method == m && (
                                            #[trigger] spec_match(
                                                self.routes@[j].segs@,
                                                partsv,
                                            )) is Some implies spec_le(
                                            self.routes@[i as int].segs@,
                                            self.routes@[j].segs@,
                                        ) by {
                                            if j < i {
                                                lemma_le_trans(
                                                    self.routes@[i as int].segs@,
                                                    self.routes@[b as int].segs@,
                                                    self.routes@[j].segs@,
                                                );
                                            } else {
                                                lemma_le_refl(self.routes@[i as int].segs@);
                                            }
                                        }
                                    }
                                    best = Option::Some((i, ps));
                                }
                            },
                        }
                    },
                    Option::None => {},
                }
            }
            i += 1;
        }
        best
    }

    /// Resolve a method and path to the most specific matching route's
    /// handler and its bound parameters. A HEAD request with no matching
    /// HEAD route falls back to the GET routes.
    pub fn find(&self, method: Method, path: &str) -> (r: Option<(&H, Vec<(String, String)>)>)
        ensures
            match r {
                Option::Some((h, ps)) => find_ok(self.routes@, method, path@, *h, pv(ps@)),
                Option::None => find_none_ok(self.routes@, method, path@),
            },
    {
        let plen = path.unicode_len();
        if plen == 0 || path.get_char(0) != '/' {
            return Option::None;
        }
        let mut parts = split_str(path, '/');
        proof {
            crate::text::lemma_split_len(path@, '/');
            assert(parts@.map_values(|p: String| p@).len() == spec_split(path@, '/').len());
        }
        let ghost pieces0 = parts@;
        let removed = parts.remove(0);
        proof {
            assert(parts@ =~= pieces0.drop_first());
            assert(parts@.map_values(|p: String| p@) =~= spec_split(path@, '/').drop_first());
        }
        match self.find_best(method, &parts) {
            Option::Some((i, ps)) => {
                return Option::Some((&self.routes[i].handler, ps));
            },
            Option::None => {},
        }
        if method == Method::Head {
            match self.find_best(Method::Get, &parts) {
                Option::Some((i, ps)) => {
                    return Option::Some((&self.routes[i].handler, ps));
                },
                Option::None => {},
            }
        }
        Option::None
    }

    /// All methods with a route matching `path`, in normalized (alphabetical)
    /// order, without duplicates.
    pub fn allowed_methods(&self, path: &str) -> (r: Vec<Method>)
        ensures
            forall|a: int, b: int|
                0 <= a < b < r@.len() ==> (#[trigger] r@[a]).spec_rank() < (
                #[trigger] r@[b]).spec_rank(),
            match spec_path_parts(path@) {
                Option::Some(parts) => forall|m: Method|
                    r@.contains(m) <==> any_match(self.routes@, m, parts),
                Option::None => r@.len() == 0,
            },
    {
        let mut out: Vec<Method> = Vec::new();
        let plen = path.unicode_len();
        if plen == 0 || path.get_char(0) != '/' {
            return out;
        }
        let mut parts = split_str(path, '/');
        proof {
            crate::text::lemma_split_len(path@, '/');
            assert(parts@.map_values(|p: String| p@).len() == spec_split(path@, '/').len());
        }
        let ghost pieces0 = parts@;
        let removed = parts.remove(0);
        let ghost partsv = spec_path_parts(path@)->Some_0;
        proof {
            assert(parts@ =~= pieces0.drop_first());
            assert(parts@.map_values(|p: String| p@) =~= spec_split(path@, '/').drop_first());
        }
        let all: [Method; 9] = [
            Method::Connect,
            Method::Delete,
            Method::Get,
            Method::Head,
            Method::Options,
            Method::Patch,
            Method::Post,
            Method::Put,
            Method::Trace,
        ];
        let mut k: usize = 0;
        while k < 9
            invariant
                parts@.map_values(|p: String| p@) == partsv,
                k <= 9,
                all@ =~= seq![
                    Method::Connect,
                    Method::Delete,
                    Method::Get,
                    Method::Head,
                    Method::Options,
                    Method::Patch,
                    Method::Post,
                    Method::Put,
                    Method::Trace,
                ],
                forall|a: int, b: int|
                    0 <= a < b < out@.len() ==> (#[trigger] out@[a]).spec_rank() < (
                    #[trigger] out@[b]).spec_rank(),
                forall|a: int| 0 <= a < out@.len() ==> (#[trigger] out@[a]).spec_rank() < k,
                forall|m: Method|
                    m.spec_rank() < k ==> (out@.contains(m) <==> any_match(
                        self.routes@,
                        m,
                        partsv,
                    )),
                forall|m: Method| m.spec_rank() >= k ==> !out@.contains(m),
            decreases 9 - k,
        {
            let m = all[k];
            proof {
                assert(all@[k as int] == m);
                assert(m.spec_rank() == k as int);
            }
            let mut found: bool = false;
            let n = self.routes.len();
            let mut i: usize = 0;
            while i < n
                invariant
                    parts@.map_values(|p: String| p@) == partsv,
                    n == self.routes@.len(),
                    i <= n,
                    found ==> any_match(self.routes@, m, partsv),
                    !found ==> forall|j: int|
                        0 <= j < i ==> !(self.routes@[j].method == m && (#[trigger] spec_match(
                            self.routes@[j].segs@,
                            partsv,
                        )) is Some),
                decreases n - i,
            {
                let rt = &self.routes[i];
                if !found && rt.method == m {
                    proof {
                        assert(rt.segs@.skip(0) =~= rt.segs@);
                        assert(partsv.skip(0) =~= partsv);
                    }
                    match match_at(&rt.segs, 0, &parts, 0) {
                        Option::Some(_) => {
                            found = true;
                        },
                        Option::None => {},
                    }
                }
                i += 1;
            }
            let ghost out0 = out@;
            if found {
                out.push(m);
                proof {
                    assert(out@ =~= out0.push(m));
                    assert forall|mm: Method| mm.spec_rank() < k + 1 implies (out@.contains(mm)
                        <==> any_match(self.routes@, mm, partsv)) by {
                        if mm.spec_rank() < k as int {
                            assert(out0.contains(mm) <==> any_match(self.routes@, mm, partsv));
                            if out0.contains(mm) {
                                let w = choose|w: int| 0 <= w < out0.len() && out0[w] == mm;
                                assert(out@[w] == mm);
                                assert(out@.contains(mm));
                            }
                            if out@.contains(mm) {
                                let w = choose|w: int| 0 <= w < out@.len() && out@[w] == mm;
                                if w < out0.len() {
                                    assert(out0.contains(mm));
                                } else {
                                    assert(mm == m);
                                    assert(false);
                                }
                            }
                        } else {
                            assert(mm == m) by {
                                lemma_rank_injective(mm, m);
                            }
                            assert(out@[out@.len() - 1] == m);
                            assert(out@.contains(m));
                        }
                    }
                    assert forall|mm: Method| mm.spec_rank() >= k + 1 implies !out@.contains(mm)
                        by {
                        if out@.contains(mm) {
                            let w = choose|w: int| 0 <= w < out@.len() && out@[w] == mm;
                            if w < out0.len() {
                                assert(out0.contains(mm));
                            }
                        }
                    }
                }
            } else {
                proof {
                    assert forall|mm: Method| mm.spec_rank() < k + 1 implies (out@.contains(mm)
                        <==> any_match(self.routes@, mm, partsv)) by {
                        if mm.spec_rank() == k as int {
                            assert(mm == m) by {
                                lemma_rank_injective(mm, m);
                            }
                            assert(!any_match(self.routes@, m, partsv));
                            assert(!out@.contains(m));
                        }
                    }
                }
            }
            k += 1;
        }
        proof {
            assert forall|m: Method| out@.contains(m) <==> any_match(
                self.routes@,
                m,
                partsv,
            ) by {
                assert(m.spec_rank() < 9);
            }
        }
        out
    }
}

impl<H> Default for Router<H> {
    fn default() -> (r: Router<H>)
        ensures
            r.routes@ == Seq::<Route<H>>::empty(),
    {
        Router::new()
    }
}

/// Two methods with one rank are one method.
proof fn lemma_rank_injective(a: Method, b: Method)
    requires
        a.spec_rank() == b.spec_rank(),
    ensures
        a == b,
{
}

} // verus!
