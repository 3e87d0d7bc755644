//! Verified text primitives: ASCII case folding, splitting, trimming,
//! prefix tests, and decimal/hexadecimal formatting.

use vstd::prelude::*;

verus! {

use vstd::string::StringSliceAdditionalSpecFns;
use vstd::string::StringExecFns;
use vstd::string::StrSliceExecFns;

/// ASCII-lowercase a single character; characters outside `A`..`Z` are kept.
pub open spec fn lower_char(c: char) -> char {
    if 65 <= c as u32 && c as u32 <= 90 {
        (((c as u32) + 32) as u8) as char
    } else {
        c
    }
}

/// ASCII-lowercase a character sequence.
pub open spec fn lower_seq(s: Seq<char>) -> Seq<char> {
    Seq::new(s.len(), |i: int| lower_char(s[i]))
}

/// Executable ASCII case folding of one character.
pub fn lower_char_exec(c: char) -> (r: char)
    ensures
        r == lower_char(c),
{
    let u = c as u32;
    if 65 <= u && u <= 90 {
        proof {
            vstd::utf8::char_u32_cast(c, u);
        }
        ((u + 32) as u8) as char
    } else {
        c
    }
}

/// Exact string equality, decided byte-wise.
pub fn str_eq(a: &str, b: &str) -> (r: bool)
    ensures
        r == (a@ == b@),
{
    let ab = a.as_bytes();
    let bb = b.as_bytes();
    if ab.len() != bb.len() {
        proof {
            broadcast use vstd::utf8::encode_utf8_decode_utf8;
        }
        return false;
    }
    let n = ab.len();
    let mut i: usize = 0;
    while i < n
        invariant
            n == ab@.len() == bb@.len(),
            ab@ == a.spec_bytes(),
            bb@ == b.spec_bytes(),
            i <= n,
            ab@.take(i as int) == bb@.take(i as int),
        decreases n - i,
    {
        if ab[i] != bb[i] {
            proof {
                broadcast use vstd::utf8::encode_utf8_decode_utf8;

                assert(a.spec_bytes()[i as int] != b.spec_bytes()[i as int]);
            }
            return false;
        }
        proof {
            assert(ab@.take(i + 1) =~= ab@.take(i as int).push(ab@[i as int]));
            assert(bb@.take(i + 1) =~= bb@.take(i as int).push(bb@[i as int]));
        }
        i += 1;
    }
    proof {
        assert(ab@.take(n as int) =~= ab@);
        assert(bb@.take(n as int) =~= bb@);
        broadcast use vstd::utf8::encode_utf8_decode_utf8;

        assert(vstd::utf8::decode_utf8(a.spec_bytes()) == a@);
        assert(vstd::utf8::decode_utf8(b.spec_bytes()) == b@);
    }
    true
}

/// Case-insensitive (ASCII) string equality.
pub fn eq_ignore_case(a: &str, b: &str) -> (r: bool)
    ensures
        r == (lower_seq(a@) == lower_seq(b@)),
{
    let la = a.unicode_len();
    let lb = b.unicode_len();
    if la != lb {
        proof {
            assert(lower_seq(a@).len() != lower_seq(b@).len());
        }
        return false;
    }
    let mut i: usize = 0;
    while i < la
        invariant
            la == a@.len() == b@.len(),
            i <= la,
            forall|j: int| 0 <= j < i ==> lower_char(a@[j]) == lower_char(b@[j]),
        decreases la - i,
    {
        let ca = a.get_char(i);
        let cb = b.get_char(i);
        if lower_char_exec(ca) != lower_char_exec(cb) {
            proof {
                assert(lower_seq(a@)[i as int] != lower_seq(b@)[i as int]);
            }
            return false;
        }
        i += 1;
    }
    proof {
        assert(lower_seq(a@) =~= lower_seq(b@));
    }
    true
}

/// Does `s` start with `p`?
pub fn starts_with(s: &str, p: &str) -> (r: bool)
    ensures
        r == p@.is_prefix_of(s@),
{
    let lp = p.unicode_len();
    let ls = s.unicode_len();
    if lp > ls {
        return false;
    }
    let mut i: usize = 0;
    while i < lp
        invariant
            lp == p@.len(),
            ls == s@.len(),
            lp <= ls,
            i <= lp,
            forall|j: int| 0 <= j < i ==> s@[j] == p@[j],
        decreases lp - i,
    {
        if s.get_char(i) != p.get_char(i) {
            proof {
                assert(s@.subrange(0, lp as int)[i as int] != p@[i as int]);
            }
            return false;
        }
        i += 1;
    }
    proof {
        assert(s@.subrange(0, lp as int) =~= p@);
    }
    true
}

/// Split a character sequence on a separator. The result always has one more
/// piece than there are separators; an empty input yields one empty piece.
pub open spec fn spec_split(s: Seq<char>, sep: char) -> Seq<Seq<char>>
    decreases s.len(),
{
    if s.len() == 0 {
        seq![Seq::<char>::empty()]
    } else if s.last() == sep {
        spec_split(s.drop_last(), sep).push(Seq::<char>::empty())
    } else {
        let r = spec_split(s.drop_last(), sep);
        r.update(r.len() - 1, r.last().push(s.last()))
    }
}

/// The split of any sequence has at least one piece.
pub proof fn lemma_split_len(s: Seq<char>, sep: char)
    ensures
        spec_split(s, sep).len() >= 1,
    decreases s.len(),
{
    if s.len() > 0 {
        lemma_split_len(s.drop_last(), sep);
    }
}

/// Executable split on a separator character.
pub fn split_str(s: &str, sep: char) -> (r: Vec<String>)
    ensures
        r@.map_values(|p: String| p@) == spec_split(s@, sep),
{
    let n = s.unicode_len();
    let mut parts: Vec<String> = Vec::new();
    let mut cur = String::new();
    let mut i: usize = 0;
    while i < n
        invariant
            n == s@.len(),
            i <= n,
            parts@.map_values(|p: String| p@).push(cur@) == spec_split(s@.take(i as int), sep),
        decreases n - i,
    {
        let c = s.get_char(i);
        proof {
            assert(s@.take(i + 1).drop_last() =~= s@.take(i as int));
            assert(s@.take(i + 1).last() == s@[i as int]);
        }
        if c == sep {
            parts.push(cur);
            cur = String::new();
            proof {
                let m = |p: String| p@;
                assert(parts@.map_values(m).push(cur@) =~= spec_split(s@.take(i + 1), sep));
            }
        } else {
            let piece = s.substring_char(i, i + 1);
            let ghost prev_cur = cur@;
            cur.append(piece);
            proof {
                let m = |p: String| p@;
                let prev = spec_split(s@.take(i as int), sep);
                lemma_split_len(s@.take(i as int), sep);
                assert(piece@ =~= seq![s@[i as int]]);
                assert(prev == parts@.map_values(m).push(prev_cur));
                assert(prev.last() == prev_cur);
                assert(cur@ =~= prev_cur.push(s@[i as int]));
                assert(parts@.map_values(m).push(cur@) =~= prev.update(
                    prev.len() - 1,
                    prev.last().push(s@[i as int]),
                ));
            }
        }
        i += 1;
    }
    proof {
        assert(s@.take(n as int) =~= s@);
    }
    parts.push(cur);
    proof {
        let m = |p: String| p@;
        assert(parts@.map_values(m) =~= spec_split(s@, sep));
    }
    parts
}

/// Index of the first occurrence of `c` in `s`, or `-1` when absent.
pub open spec fn find_char(s: Seq<char>, c: char) -> int
    decreases s.len(),
{
    if s.len() == 0 {
        -1
    } else if s[0] == c {
        0
    } else {
        let r = find_char(s.drop_first(), c);
        if r < 0 {
            -1
        } else {
            r + 1
        }
    }
}

/// `find_char` points at the first occurrence.
pub proof fn lemma_find_char_at(s: Seq<char>, c: char, i: int)
    requires
        0 <= i < s.len(),
        s[i] == c,
        forall|j: int| 0 <= j < i ==> s[j] != c,
    ensures
        find_char(s, c) == i,
    decreases s.len(),
{
    if i > 0 {
        assert(forall|j: int| 0 <= j < s.drop_first().len() ==> s.drop_first()[j] == s[j + 1]);
        lemma_find_char_at(s.drop_first(), c, i - 1);
    }
}

/// When `c` does not occur, `find_char` is negative.
pub proof fn lemma_find_char_missing(s: Seq<char>, c: char)
    requires
        forall|j: int| 0 <= j < s.len() ==> s[j] != c,
    ensures
        find_char(s, c) == -1,
    decreases s.len(),
{
    if s.len() > 0 {
        assert(forall|j: int| 0 <= j < s.drop_first().len() ==> s.drop_first()[j] == s[j + 1]);
        lemma_find_char_missing(s.drop_first(), c);
    }
}

/// Executable first-occurrence search.
pub fn find_char_exec(s: &str, c: char) -> (r: Option<usize>)
    ensures
        match r {
            Option::Some(i) => i < s@.len() && find_char(s@, c) == i as int,
            Option::None => find_char(s@, c) == -1,
        },
{
    let n = s.unicode_len();
    let mut i: usize = 0;
    while i < n
        invariant
            n == s@.len(),
            i <= n,
            forall|j: int| 0 <= j < i ==> s@[j] != c,
        decreases n - i,
    {
        if s.get_char(i) == c {
            proof {
                lemma_find_char_at(s@, c, i as int);
            }
            return Option::Some(i);
        }
        i += 1;
    }
    proof {
        lemma_find_char_missing(s@, c);
    }
    Option::None
}

/// The number a non-empty all-digit string denotes, when it fits in 64
/// bits; anything else denotes nothing.
pub open spec fn spec_parse_u64(s: Seq<char>) -> Option<int>
    decreases s.len(),
{
    if s.len() == 0 {
        Option::None
    } else if !('0' <= s.last() && s.last() <= '9') {
        Option::None
    } else if s.len() == 1 {
        Option::Some(s.last() as int - 48)
    } else {
        match spec_parse_u64(s.drop_last()) {
            Option::Some(hi) => {
                let v = hi * 10 + (s.last() as int - 48);
                if v <= u64::MAX {
                    Option::Some(v)
                } else {
                    Option::None
                }
            },
            Option::None => Option::None,
        }
    }
}

/// Executable decimal parsing.
pub fn parse_u64(s: &str) -> (r: Option<u64>)
    ensures
        match r {
            Option::Some(v) => spec_parse_u64(s@) == Option::Some(v as int),
            Option::None => spec_parse_u64(s@) is None,
        },
{
    let n = s.unicode_len();
    if n == 0 {
        return Option::None;
    }
    let mut acc: u64 = 0;
    let mut i: usize = 0;
    while i < n
        invariant
            n == s@.len(),
            0 < n,
            i <= n,
            i == 0 ==> acc == 0,
            i > 0 ==> spec_parse_u64(s@.take(i as int)) == Option::Some(acc as int),
        decreases n - i,
    {
        let c = s.get_char(i);
        let u = c as u32;
        proof {
            assert(s@.take(i + 1).drop_last() =~= s@.take(i as int));
            assert(s@.take(i + 1).last() == s@[i as int]);
        }
        if !(48 <= u && u <= 57) {
            proof {
                lemma_parse_u64_bad_digit(s@, i as int);
            }
            return Option::None;
        }
        let d = (u - 48) as u64;
        if acc > (u64::MAX - d) / 10 {
            proof {
                lemma_parse_u64_overflow(s@, i + 1);
            }
            return Option::None;
        }
        acc = acc * 10 + d;
        i += 1;
    }
    proof {
        assert(s@.take(n as int) =~= s@);
    }
    Option::Some(acc)
}

/// A non-digit anywhere makes the whole string denote nothing.
proof fn lemma_parse_u64_bad_digit(s: Seq<char>, i: int)
    requires
        0 <= i < s.len(),
        !('0' <= s[i] && s[i] <= '9'),
    ensures
        spec_parse_u64(s) is None,
    decreases s.len(),
{
    if s.len() > 0 && i < s.len() - 1 {
        lemma_parse_u64_bad_digit(s.drop_last(), i);
    }
}

/// Once a prefix fails to parse, every extension fails too.
proof fn lemma_parse_u64_overflow(s: Seq<char>, i: int)
    requires
        0 < i <= s.len(),
        spec_parse_u64(s.take(i)) is None,
    ensures
        spec_parse_u64(s) is None,
    decreases s.len() - i,
{
    if i < s.len() {
        assert(s.take(i + 1).drop_last() =~= s.take(i));
        lemma_parse_u64_overflow(s, i + 1);
    } else {
        assert(s.take(i) =~= s);
    }
}

/// Is the character a space or horizontal tab?
pub open spec fn is_ws(c: char) -> bool {
    c == ' ' || c == '\t'
}

/// Drop leading and trailing spaces and tabs.
pub open spec fn spec_trim(s: Seq<char>) -> Seq<char>
    decreases s.len(),
{
    if s.len() == 0 {
        s
    } else if is_ws(s[0]) {
        spec_trim(s.drop_first())
    } else if is_ws(s.last()) {
        spec_trim(s.drop_last())
    } else {
        s
    }
}

/// Executable trim of spaces and tabs.
pub fn trim_str(s: &str) -> (r: String)
    ensures
        r@ == spec_trim(s@),
{
    let n = s.unicode_len();
    let mut lo: usize = 0;
    let mut hi: usize = n;
    proof {
        assert(s@.subrange(0, n as int) =~= s@);
    }
    while lo < hi
        invariant
            n == s@.len(),
            lo <= hi <= n,
            spec_trim(s@) == spec_trim(s@.subrange(lo as int, hi as int)),
        ensures
            lo <= hi <= n,
            spec_trim(s@) == spec_trim(s@.subrange(lo as int, hi as int)),
            lo < hi ==> !is_ws(s@[lo as int]),
        decreases hi - lo,
    {
        let c = s.get_char(lo);
        if c == ' ' || c == '\t' {
            proof {
                let sub = s@.subrange(lo as int, hi as int);
                assert(sub.drop_first() =~= s@.subrange(lo + 1, hi as int));
            }
            lo += 1;
        } else {
            break;
        }
    }
    while lo < hi
        invariant
            n == s@.len(),
            lo <= hi <= n,
            spec_trim(s@) == spec_trim(s@.subrange(lo as int, hi as int)),
            lo < hi ==> !is_ws(s@[lo as int]),
        ensures
            lo <= hi <= n,
            spec_trim(s@) == spec_trim(s@.subrange(lo as int, hi as int)),
            lo < hi ==> !is_ws(s@[lo as int]),
            lo < hi ==> !is_ws(s@[hi - 1]),
        decreases hi - lo,
    {
        let c = s.get_char(hi - 1);
        if c == ' ' || c == '\t' {
            proof {
                let sub = s@.subrange(lo as int, hi as int);
                assert(sub.drop_last() =~= s@.subrange(lo as int, hi - 1));
            }
            hi -= 1;
        } else {
            break;
        }
    }
    let piece = s.substring_char(lo, hi);
    let r = piece.to_owned();
    proof {
        let sub = s@.subrange(lo as int, hi as int);
        if lo < hi {
            assert(!is_ws(sub[0]));
            assert(!is_ws(sub.last()));
        }
        assert(spec_trim(sub) == sub);
    }
    r
}

/// The character for a single digit value below 16 (lower-case hex).
pub open spec fn digit_char(d: int) -> char {
    if d < 10 {
        ((48 + d) as u8) as char
    } else {
        ((87 + d) as u8) as char
    }
}

/// Decimal digit string of a natural number, no leading zeros.
pub open spec fn spec_dec(n: int) -> Seq<char>
    decreases n,
{
    if n < 10 {
        seq![digit_char(n)]
    } else {
        spec_dec(n / 10).push(digit_char(n % 10))
    }
}

/// Hexadecimal (lower-case) digit string of a natural number.
pub open spec fn spec_hex(n: int) -> Seq<char>
    decreases n,
{
    if n < 16 {
        seq![digit_char(n)]
    } else {
        spec_hex(n / 16).push(digit_char(n % 16))
    }
}

/// One-character string for a digit value below 16.
fn digit_str(d: u64) -> (r: &'static str)
    requires
        d < 16,
    ensures
        r@ == seq![digit_char(d as int)],
{
    proof {
        reveal_strlit("0");
        reveal_strlit("1");
        reveal_strlit("2");
        reveal_strlit("3");
        reveal_strlit("4");
        reveal_strlit("5");
        reveal_strlit("6");
        reveal_strlit("7");
        reveal_strlit("8");
        reveal_strlit("9");
        reveal_strlit("a");
        reveal_strlit("b");
        reveal_strlit("c");
        reveal_strlit("d");
        reveal_strlit("e");
        reveal_strlit("f");
    }
    if d == 0 {
        "0"
    } else if d == 1 {
        "1"
    } else if d == 2 {
        "2"
    } else if d == 3 {
        "3"
    } else if d == 4 {
        "4"
    } else if d == 5 {
        "5"
    } else if d == 6 {
        "6"
    } else if d == 7 {
        "7"
    } else if d == 8 {
        "8"
    } else if d == 9 {
        "9"
    } else if d == 10 {
        "a"
    } else if d == 11 {
        "b"
    } else if d == 12 {
        "c"
    } else if d == 13 {
        "d"
    } else if d == 14 {
        "e"
    } else {
        "f"
    }
}

/// Format a number in decimal.
pub fn u64_to_dec(n: u64) -> (r: String)
    ensures
        r@ == spec_dec(n as int),
    decreases n,
{
    if n < 10 {
        digit_str(n).to_owned()
    } else {
        let mut s = u64_to_dec(n / 10);
        s.append(digit_str(n % 10));
        proof {
            assert(s@ =~= spec_dec(n as int));
        }
        s
    }
}

/// Format a number in lower-case hexadecimal.
pub fn u64_to_hex(n: u64) -> (r: String)
    ensures
        r@ == spec_hex(n as int),
    decreases n,
{
    if n < 16 {
        digit_str(n).to_owned()
    } else {
        let mut s = u64_to_hex(n / 16);
        s.append(digit_str(n % 16));
        proof {
            assert(s@ =~= spec_hex(n as int));
        }
        s
    }
}

} // verus!
