//! A header collection with case-insensitive names, modeled as an ordered
//! list of name/value pairs; lookups return the first match.

use vstd::prelude::*;

verus! {

use crate::text::{lower_seq, eq_ignore_case};

/// Case-insensitive equality of two header names.
pub open spec fn key_eq(a: Seq<char>, b: Seq<char>) -> bool {
    lower_seq(a) == lower_seq(b)
}

/// Index of the first entry whose name equals `name` case-insensitively,
/// or `-1` when there is none.
pub open spec fn spec_find(m: Seq<(Seq<char>, Seq<char>)>, name: Seq<char>) -> int
    decreases m.len(),
{
    if m.len() == 0 {
        -1
    } else if key_eq(m[0].0, name) {
        0
    } else {
        let r = spec_find(m.drop_first(), name);
        if r < 0 {
            -1
        } else {
            r + 1
        }
    }
}

/// The value stored under `name`, if any.
pub open spec fn spec_get(m: Seq<(Seq<char>, Seq<char>)>, name: Seq<char>) -> Option<Seq<char>> {
    let i = spec_find(m, name);
    if i < 0 {
        Option::None
    } else {
        Option::Some(m[i].1)
    }
}

/// Whether some entry is stored under `name`.
pub open spec fn spec_contains(m: Seq<(Seq<char>, Seq<char>)>, name: Seq<char>) -> bool {
    spec_find(m, name) >= 0
}

/// Replace the value under `name` in place, or append a new entry.
pub open spec fn spec_insert(
    m: Seq<(Seq<char>, Seq<char>)>,
    name: Seq<char>,
    value: Seq<char>,
) -> Seq<(Seq<char>, Seq<char>)> {
    let i = spec_find(m, name);
    if i < 0 {
        m.push((name, value))
    } else {
        m.update(i, (m[i].0, value))
    }
}

/// Drop the entry under `name`, if any.
pub open spec fn spec_remove(m: Seq<(Seq<char>, Seq<char>)>, name: Seq<char>) -> Seq<
    (Seq<char>, Seq<char>),
> {
    let i = spec_find(m, name);
    if i < 0 {
        m
    } else {
        m.remove(i)
    }
}

/// What `spec_find` returns: a first match, or a proof there is no match.
pub proof fn lemma_find_props(m: Seq<(Seq<char>, Seq<char>)>, name: Seq<char>)
    ensures
        spec_find(m, name) >= 0 ==> {
            &&& spec_find(m, name) < m.len()
            &&& key_eq(m[spec_find(m, name)].0, name)
            &&& forall|j: int| 0 <= j < spec_find(m, name) ==> !key_eq(m[j].0, name)
        },
        spec_find(m, name) < 0 ==> forall|j: int| 0 <= j < m.len() ==> !key_eq(m[j].0, name),
    decreases m.len(),
{
    if m.len() > 0 {
        lemma_find_props(m.drop_first(), name);
        if !key_eq(m[0].0, name) {
            let d = m.drop_first();
            let r = spec_find(d, name);
            if r >= 0 {
                assert(m[r + 1] == d[r]);
                assert forall|j: int| 0 <= j < r + 1 implies !key_eq(m[j].0, name) by {
                    if j > 0 {
                        assert(m[j] == d[j - 1]);
                    }
                }
            } else {
                assert forall|j: int| 0 <= j < m.len() implies !key_eq(m[j].0, name) by {
                    if j > 0 {
                        assert(m[j] == d[j - 1]);
                    }
                }
            }
        }
    }
}

/// `spec_find` returns exactly the position of a first match.
pub proof fn lemma_find_at(m: Seq<(Seq<char>, Seq<char>)>, name: Seq<char>, i: int)
    requires
        0 <= i < m.len(),
        key_eq(m[i].0, name),
        forall|j: int| 0 <= j < i ==> !key_eq(m[j].0, name),
    ensures
        spec_find(m, name) == i,
    decreases m.len(),
{
    if i > 0 {
        assert(forall|j: int| 0 <= j < m.drop_first().len() ==> m.drop_first()[j] == m[j + 1]);
        lemma_find_at(m.drop_first(), name, i - 1);
    }
}

/// When nothing matches, `spec_find` is negative.
pub proof fn lemma_find_missing(m: Seq<(Seq<char>, Seq<char>)>, name: Seq<char>)
    requires
        forall|j: int| 0 <= j < m.len() ==> !key_eq(m[j].0, name),
    ensures
        spec_find(m, name) == -1,
    decreases m.len(),
{
    if m.len() > 0 {
        assert(forall|j: int| 0 <= j < m.drop_first().len() ==> m.drop_first()[j] == m[j + 1]);
        lemma_find_missing(m.drop_first(), name);
    }
}

/// An ordered collection of header name/value pairs. Lookups fold ASCII case;
/// names are stored as first given. At most one entry exists per folded name.
pub struct HeaderMap {
    entries: Vec<(String, String)>,
}

impl View for HeaderMap {
    type V = Seq<(Seq<char>, Seq<char>)>;

    closed spec fn view(&self) -> Seq<(Seq<char>, Seq<char>)> {
        self.entries@.map_values(|e: (String, String)| (e.0@, e.1@))
    }
}

impl HeaderMap {
    /// An empty header map.
    pub fn new() -> (r: HeaderMap)
        ensures
            r@ == Seq::<(Seq<char>, Seq<char>)>::empty(),
    {
        let r = HeaderMap { entries: Vec::new() };
        proof {
            assert(r@ =~= Seq::<(Seq<char>, Seq<char>)>::empty());
        }
        r
    }

    /// Number of entries.
    pub fn len(&self) -> (n: usize)
        ensures
            n == self@.len(),
    {
        self.entries.len()
    }

    /// The entry at a position, in insertion order.
    pub fn entry_at(&self, i: usize) -> (e: &(String, String))
        requires
            i < self@.len(),
        ensures
            (e.0@, e.1@) == self@[i as int],
    {
        &self.entries[i]
    }

    /// Position of the entry stored under `name`, if any.
    fn find(&self, name: &str) -> (r: Option<usize>)
        ensures
            match r {
                Option::Some(i) => i < self@.len() && spec_find(self@, name@) == i as int,
                Option::None => spec_find(self@, name@) == -1,
            },
    {
        let n = self.entries.len();
        let mut i: usize = 0;
        while i < n
            invariant
                n == self@.len(),
                i <= n,
                self@.len() == self.entries@.len(),
                forall|j: int| 0 <= j < self@.len() ==> self@[j] == (
                    self.entries@[j].0@,
                    self.entries@[j].1@,
                ),
                forall|j: int| 0 <= j < i ==> !key_eq(self@[j].0, name@),
            decreases n - i,
        {
            let e = &self.entries[i];
            if eq_ignore_case(e.0.as_str(), name) {
                proof {
                    lemma_find_at(self@, name@, i as int);
                }
                return Option::Some(i);
            }
            i += 1;
        }
        proof {
            lemma_find_missing(self@, name@);
        }
        Option::None
    }

    /// The value stored under `name`, if any (case-insensitive).
    pub fn get(&self, name: &str) -> (r: Option<&String>)
        ensures
            match r {
                Option::Some(v) => spec_get(self@, name@) == Option::Some(v@),
                Option::None => spec_get(self@, name@) is None,
            },
    {
        match self.find(name) {
            Option::Some(i) => Option::Some(&self.entries[i].1),
            Option::None => Option::None,
        }
    }

    /// Whether some entry is stored under `name` (case-insensitive).
    pub fn contains_key(&self, name: &str) -> (r: bool)
        ensures
            r == spec_contains(self@, name@),
    {
        match self.find(name) {
            Option::Some(_) => true,
            Option::None => false,
        }
    }

    /// Set `name` to `value`: replaces the value of an existing entry
    /// (keeping its stored spelling and position), or appends a new entry.
    pub fn insert(&mut self, name: &str, value: String)
        ensures
            final(self)@ == spec_insert(old(self)@, name@, value@),
    {
        let ghost m0 = self@;
        match self.find(name) {
            Option::Some(i) => {
                let stored = self.entries[i].0.clone();
                self.entries.set(i, (stored, value));
                proof {
                    assert(self@ =~= spec_insert(m0, name@, value@));
                }
            },
            Option::None => {
                self.entries.push((name.to_owned(), value));
                proof {
                    assert(self@ =~= spec_insert(m0, name@, value@));
                }
            },
        }
    }

    /// Remove the entry stored under `name`, if any.
    pub fn remove(&mut self, name: &str)
        ensures
            final(self)@ == spec_remove(old(self)@, name@),
    {
        let ghost m0 = self@;
        match self.find(name) {
            Option::Some(i) => {
                self.entries.remove(i);
                proof {
                    assert(self@ =~= spec_remove(m0, name@));
                }
            },
            Option::None => {
                proof {
                    assert(self@ =~= spec_remove(m0, name@));
                }
            },
        }
    }
}

/// After an insert, lookup under the same name yields the new value.
pub proof fn lemma_insert_get(m: Seq<(Seq<char>, Seq<char>)>, name: Seq<char>, value: Seq<char>)
    ensures
        spec_get(spec_insert(m, name, value), name) == Option::Some(value),
{
    lemma_find_props(m, name);
    let i = spec_find(m, name);
    let m2 = spec_insert(m, name, value);
    if i < 0 {
        lemma_find_at(m2, name, m.len() as int);
    } else {
        lemma_find_at(m2, name, i);
    }
}

/// Inserting one name leaves every other name's lookup unchanged.
pub proof fn lemma_insert_other(
    m: Seq<(Seq<char>, Seq<char>)>,
    name: Seq<char>,
    value: Seq<char>,
    other: Seq<char>,
)
    requires
        !key_eq(name, other),
    ensures
        spec_get(spec_insert(m, name, value), other) == spec_get(m, other),
{
    lemma_find_props(m, name);
    lemma_find_props(m, other);
    let i = spec_find(m, name);
    let j = spec_find(m, other);
    let m2 = spec_insert(m, name, value);
    if i < 0 {
        if j < 0 {
            lemma_find_missing(m2, other);
        } else {
            lemma_find_at(m2, other, j);
        }
    } else {
        assert(key_eq(m[i].0, name));
        if j < 0 {
            assert(forall|k: int| 0 <= k < m2.len() ==> m2[k].0 == m[k].0);
            lemma_find_missing(m2, other);
        } else {
            assert(forall|k: int| 0 <= k < m2.len() ==> m2[k].0 == m[k].0);
            lemma_find_at(m2, other, j);
        }
    }
}

} // verus!
