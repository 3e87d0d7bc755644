//! Static-file path resolution: which file a routed request asks for, with
//! traversal-proof normalization. Probing the file system and streaming the
//! file belong to the I/O adapter; this module fixes, verifiably, the path
//! it is allowed to touch.

use vstd::prelude::*;

verus! {

use vstd::string::{StringExecFns, StrSliceExecFns};
use crate::request::{params_view, spec_param, Request};
use crate::router::{join_parts, spec_join};
use crate::text::{spec_split, split_str, str_eq};

/// Path components that survive normalization: non-empty, not `.`, not
/// `..`.
pub open spec fn keep_component(p: Seq<char>) -> bool {
    p.len() > 0 && p != "."@ && p != ".."@
}

/// The surviving components, in order.
pub open spec fn sanitized_parts(ps: Seq<Seq<char>>) -> Seq<Seq<char>>
    decreases ps.len(),
{
    if ps.len() == 0 {
        Seq::<Seq<char>>::empty()
    } else if keep_component(ps.last()) {
        sanitized_parts(ps.drop_last()).push(ps.last())
    } else {
        sanitized_parts(ps.drop_last())
    }
}

/// Normalize a relative path: drop empty, `.` and `..` components, keeping
/// the rest in order. The result can never climb out of the directory it
/// is joined to.
pub open spec fn spec_sanitize(rel: Seq<char>) -> Seq<char> {
    spec_join(sanitized_parts(spec_split(rel, '/')), '/')
}

/// Executable normalization.
pub fn sanitize(rel: &str) -> (r: String)
    ensures
        r@ == spec_sanitize(rel@),
{
    let pieces = split_str(rel, '/');
    let ghost pviews = pieces@.map_values(|p: String| p@);
    let mut kept: Vec<String> = Vec::new();
    let mut k: usize = 0;
    proof {
        assert(kept@.map_values(|p: String| p@) =~= sanitized_parts(pviews.take(0)));
    }
    while k < pieces.len()
        invariant
            pviews == pieces@.map_values(|p: String| p@),
            k <= pieces@.len(),
            kept@.map_values(|p: String| p@) == sanitized_parts(pviews.take(k as int)),
        decreases pieces@.len() - k,
    {
        let p = &pieces[k];
        let ghost kept0 = kept@;
        proof {
            assert(pviews.take(k + 1).drop_last() =~= pviews.take(k as int));
            assert(pviews.take(k + 1).last() == p@);
        }
        let keep = p.as_str().unicode_len() > 0 && !str_eq(p.as_str(), ".") && !str_eq(
            p.as_str(),
            "..",
        );
        if keep {
            kept.push(p.clone());
            proof {
                assert(kept@.map_values(|q: String| q@) =~= kept0.map_values(
                    |q: String| q@,
                ).push(p@));
            }
        }
        k += 1;
    }
    proof {
        assert(pviews.take(pieces@.len() as int) =~= pviews);
        assert(kept@.map_values(|p: String| p@).skip(0) =~= kept@.map_values(|p: String| p@));
    }
    join_parts(&kept, 0)
}

/// A handler configuration for serving files out of one directory:
/// the root, an optional route-parameter name to read the relative path
/// from, and an optional fallback file for empty or directory paths.
pub struct ServeDir {
    pub root: String,
    pub param: Option<String>,
    pub fallback: Option<String>,
}

/// The value of the parameter named `name`, when bound and non-empty.
pub open spec fn nonempty_param(ps: Seq<(Seq<char>, Seq<char>)>, name: Seq<char>) -> Option<
    Seq<char>,
> {
    match spec_param(ps, name) {
        Option::Some(v) => if v.len() > 0 {
            Option::Some(v)
        } else {
            Option::None
        },
        Option::None => Option::None,
    }
}

/// Where the relative path comes from: the configured parameter name when
/// it is bound and non-empty, then the conventional names `path` and
/// `file`, then — when exactly one parameter is bound — that one.
pub open spec fn spec_extract(sd: ServeDir, ps: Seq<(Seq<char>, Seq<char>)>) -> Option<Seq<char>> {
    let configured = match sd.param {
        Option::Some(n) => nonempty_param(ps, n@),
        Option::None => Option::None,
    };
    if configured is Some {
        configured
    } else if nonempty_param(ps, "path"@) is Some {
        nonempty_param(ps, "path"@)
    } else if nonempty_param(ps, "file"@) is Some {
        nonempty_param(ps, "file"@)
    } else if ps.len() == 1 && ps[0].1.len() > 0 {
        Option::Some(ps[0].1)
    } else {
        Option::None
    }
}

/// The file path the request may touch: the root, a slash, and the
/// normalized relative path — or the same with the fallback file when the
/// request names no path and a fallback is configured.
pub open spec fn spec_candidate(sd: ServeDir, ps: Seq<(Seq<char>, Seq<char>)>) -> Option<
    Seq<char>,
> {
    match spec_extract(sd, ps) {
        Option::Some(rel) => Option::Some(sd.root@ + seq!['/'] + spec_sanitize(rel)),
        Option::None => match sd.fallback {
            Option::Some(fb) => Option::Some(sd.root@ + seq!['/'] + fb@),
            Option::None => Option::None,
        },
    }
}

impl ServeDir {
    /// Serve files under `root`.
    pub fn new(root: &str) -> (r: ServeDir)
        ensures
            r.root@ == root@,
            r.param is None,
            r.fallback is None,
    {
        ServeDir { root: root.to_owned(), param: Option::None, fallback: Option::None }
    }

    /// Read the relative path from this route parameter.
    pub fn with_param_name(self, name: &str) -> (r: ServeDir)
        ensures
            r.root == self.root,
            r.param matches Option::Some(n) && n@ == name@,
            r.fallback == self.fallback,
    {
        ServeDir { param: Option::Some(name.to_owned()), ..self }
    }

    /// Use this file when the request names no path (or, in the adapter,
    /// when it resolves to a directory). The name is normalized; a name
    /// with no surviving components clears the fallback.
    pub fn with_fallback(self, name: &str) -> (r: ServeDir)
        ensures
            r.root == self.root,
            r.param == self.param,
            r.fallback == (if spec_sanitize(name@).len() == 0 {
                Option::<String>::None
            } else {
                r.fallback
            }),
            r.fallback matches Option::Some(fb) ==> fb@ == spec_sanitize(name@),
    {
        let safe = sanitize(name);
        if safe.as_str().unicode_len() == 0 {
            ServeDir { fallback: Option::None, ..self }
        } else {
            ServeDir { fallback: Option::Some(safe), ..self }
        }
    }

    /// The relative path this request asks for, per the documented
    /// parameter precedence.
    pub fn extract_rel_path(&self, req: &Request) -> (r: Option<String>)
        ensures
            match r {
                Option::Some(v) => spec_extract(*self, params_view(req.params@)) == Option::Some(
                    v@,
                ),
                Option::None => spec_extract(*self, params_view(req.params@)) is None,
            },
    {
        let ghost ps = params_view(req.params@);
        match &self.param {
            Option::Some(n) => {
                match req.param(n.as_str()) {
                    Option::Some(v) => {
                        if v.unicode_len() > 0 {
                            return Option::Some(v.to_owned());
                        }
                    },
                    Option::None => {},
                }
            },
            Option::None => {},
        }
        match req.param("path") {
            Option::Some(v) => {
                if v.unicode_len() > 0 {
                    return Option::Some(v.to_owned());
                }
            },
            Option::None => {},
        }
        match req.param("file") {
            Option::Some(v) => {
                if v.unicode_len() > 0 {
                    return Option::Some(v.to_owned());
                }
            },
            Option::None => {},
        }
        if req.params.len() == 1 {
            let v = &req.params[0].1;
            if v.as_str().unicode_len() > 0 {
                return Option::Some(v.clone());
            }
        }
        Option::None
    }

    /// The only file path a request may reach: root, slash, normalized
    /// relative path (or the configured fallback). The adapter probes the
    /// file system for this path and no other.
    pub fn candidate_path(&self, req: &Request) -> (r: Option<String>)
        ensures
            match r {
                Option::Some(v) => spec_candidate(*self, params_view(req.params@))
                    == Option::Some(v@),
                Option::None => spec_candidate(*self, params_view(req.params@)) is None,
            },
    {
        match self.extract_rel_path(req) {
            Option::Some(rel) => {
                let safe = sanitize(rel.as_str());
                let mut full = self.root.clone();
                full.append("/");
                full.append(safe.as_str());
                proof {
                    reveal_strlit("/");
                    assert(full@ =~= self.root@ + seq!['/'] + spec_sanitize(rel@));
                }
                Option::Some(full)
            },
            Option::None => {
                match &self.fallback {
                    Option::Some(fb) => {
                        let mut full = self.root.clone();
                        full.append("/");
                        full.append(fb.as_str());
                        proof {
                            reveal_strlit("/");
                            assert(full@ =~= self.root@ + seq!['/'] + fb@);
                        }
                        Option::Some(full)
                    },
                    Option::None => Option::None,
                }
            },
        }
    }
}

} // verus!
