//! Character-level helpers shared by the rest of the crate: ASCII
//! case-insensitive comparison, Unicode whitespace, trimming, substring
//! search, and building a `String` character by character.

use vstd::prelude::*;
use vstd::string::*;

verus! {

/// Relies on `String::push` of std: appends exactly one character at the end.
pub assume_specification[ String::push ](s: &mut String, ch: char)
    ensures
        final(s)@ == old(s)@.push(ch),
;

/// Code point of a character after ASCII lower-casing: upper-case ASCII
/// letters move down by 32, everything else is unchanged.
pub open spec fn lower_code(c: char) -> int {
    if 65 <= c as int && c as int <= 90 {
        c as int + 32
    } else {
        c as int
    }
}

/// ASCII case-insensitive equality of two characters.
pub open spec fn ci_eq(a: char, b: char) -> bool {
    lower_code(a) == lower_code(b)
}

/// Whether `c` has the Unicode `White_Space` property, the set that
/// `str::trim` removes at both ends.
pub open spec fn is_space_char(c: char) -> bool {
    let u = c as int;
    (9 <= u && u <= 13) || u == 32 || u == 0x85 || u == 0xA0 || u == 0x1680
        || (0x2000 <= u && u <= 0x200A) || u == 0x2028 || u == 0x2029 || u == 0x202F
        || u == 0x205F || u == 0x3000
}

/// Characters that case-insensitively match `n` start at offset `i` of `h`.
pub open spec fn ci_match_at(h: Seq<char>, n: Seq<char>, i: int) -> bool {
    0 <= i && i + n.len() <= h.len() && (forall|j: int|
        0 <= j < n.len() ==> ci_eq(h[i + j], n[j]))
}

/// `h` contains `n` as a contiguous, ASCII case-insensitive substring.
pub open spec fn contains_ci(h: Seq<char>, n: Seq<char>) -> bool {
    exists|i: int| ci_match_at(h, n, i)
}

/// `s` without leading whitespace.
pub open spec fn trim_front(s: Seq<char>) -> Seq<char>
    decreases s.len(),
{
    if s.len() > 0 && is_space_char(s[0]) {
        trim_front(s.drop_first())
    } else {
        s
    }
}

/// `s` without trailing whitespace.
pub open spec fn trim_back(s: Seq<char>) -> Seq<char>
    decreases s.len(),
{
    if s.len() > 0 && is_space_char(s[s.len() - 1]) {
        trim_back(s.drop_last())
    } else {
        s
    }
}

/// `s` without leading and trailing whitespace, as `str::trim` yields it.
pub open spec fn trim_spec(s: Seq<char>) -> Seq<char> {
    trim_back(trim_front(s))
}

/// Compares two characters up to ASCII case.
pub fn char_ci_eq(a: char, b: char) -> (r: bool)
    ensures
        r == ci_eq(a, b),
{
    let ca: u32 = a as u32;
    let cb: u32 = b as u32;
    let la: u32 = if 65 <= ca && ca <= 90 {
        ca + 32
    } else {
        ca
    };
    let lb: u32 = if 65 <= cb && cb <= 90 {
        cb + 32
    } else {
        cb
    };
    la == lb
}

/// Tests a character for the Unicode `White_Space` property.
pub fn char_is_space(c: char) -> (r: bool)
    ensures
        r == is_space_char(c),
{
    let u: u32 = c as u32;
    (9 <= u && u <= 13) || u == 32 || u == 0x85 || u == 0xA0 || u == 0x1680
        || (0x2000 <= u && u <= 0x200A) || u == 0x2028 || u == 0x2029 || u == 0x202F
        || u == 0x205F || u == 0x3000
}

/// The characters of `s`, in order.
pub fn chars_of(s: &str) -> (v: Vec<char>)
    ensures
        v@ == s@,
{
    let n = s.unicode_len();
    let mut v: Vec<char> = Vec::new();
    let mut k: usize = 0;
    while k < n
        invariant
            n == s@.len(),
            k <= n,
            v@ == s@.take(k as int),
        decreases n - k,
    {
        v.push(s.get_char(k));
        assert(v@ =~= s@.take(k + 1 as int));
        k = k + 1;
    }
    assert(v@ =~= s@);
    v
}

/// A `String` holding exactly the characters of `v[from..to]`.
pub fn string_of_range(v: &Vec<char>, from: usize, to: usize) -> (r: String)
    requires
        from <= to && to <= v@.len(),
    ensures
        r@ == v@.subrange(from as int, to as int),
{
    let mut r = String::new();
    let mut k: usize = from;
    while k < to
        invariant
            from <= k <= to <= v@.len(),
            r@ == v@.subrange(from as int, k as int),
        decreases to - k,
    {
        r.push(v[k]);
        assert(r@ =~= v@.subrange(from as int, k + 1 as int));
        k = k + 1;
    }
    r
}

/// A `String` holding exactly the characters of `v`.
pub fn string_of_chars(v: &Vec<char>) -> (r: String)
    ensures
        r@ == v@,
{
    let r = string_of_range(v, 0, v.len());
    assert(v@.subrange(0, v@.len() as int) =~= v@);
    r
}

/// Whether `v` equals the characters of `s`.
pub fn chars_eq_str(v: &Vec<char>, s: &str) -> (r: bool)
    ensures
        r == (v@ == s@),
{
    let n = s.unicode_len();
    if v.len() != n {
        return false;
    }
    let mut k: usize = 0;
    while k < n
        invariant
            n == s@.len() == v@.len(),
            k <= n,
            forall|j: int| 0 <= j < k ==> v@[j] == s@[j],
        decreases n - k,
    {
        if v[k] != s.get_char(k) {
            return false;
        }
        k = k + 1;
    }
    assert(v@ =~= s@);
    true
}

/// Index bounds of `trim_spec(v@)` inside `v`: the trimmed text is
/// `v@.subrange(start, end)`.
fn trim_bounds(v: &Vec<char>) -> (r: (usize, usize))
    ensures
        r.0 <= r.1 <= v@.len(),
        trim_spec(v@) == v@.subrange(r.0 as int, r.1 as int),
{
    let n = v.len();
    let mut i: usize = 0;
    assert(v@.skip(0) =~= v@);
    while i < n
        invariant
            i <= n == v@.len(),
            trim_front(v@) == trim_front(v@.skip(i as int)),
        ensures
            i <= n,
            trim_front(v@) == trim_front(v@.skip(i as int)),
            i < n ==> !is_space_char(v@[i as int]),
        decreases n - i,
    {
        if !char_is_space(v[i]) {
            break;
        }
        assert(v@.skip(i as int).drop_first() =~= v@.skip(i + 1 as int));
        i = i + 1;
    }
    assert(trim_front(v@) == v@.subrange(i as int, n as int)) by {
        assert(v@.skip(i as int) =~= v@.subrange(i as int, n as int));
        if i < n {
            assert(v@.skip(i as int)[0] == v@[i as int]);
        }
    }
    let mut j: usize = n;
    while j > i
        invariant
            i <= j <= n == v@.len(),
            trim_back(v@.subrange(i as int, n as int)) == trim_back(
                v@.subrange(i as int, j as int),
            ),
        ensures
            i <= j <= n,
            trim_back(v@.subrange(i as int, n as int)) == trim_back(
                v@.subrange(i as int, j as int),
            ),
            j > i ==> !is_space_char(v@[j - 1]),
        decreases j,
    {
        if !char_is_space(v[j - 1]) {
            break;
        }
        assert(v@.subrange(i as int, j as int).drop_last() =~= v@.subrange(i as int, j - 1));
        j = j - 1;
    }
    assert(trim_back(v@.subrange(i as int, j as int)) == v@.subrange(i as int, j as int)) by {
        let t = v@.subrange(i as int, j as int);
        if j > i {
            assert(t[t.len() - 1] == v@[j - 1]);
        }
    }
    (i, j)
}

/// The text of `s` with leading and trailing whitespace removed.
pub fn trim_str(s: &str) -> (r: String)
    ensures
        r@ == trim_spec(s@),
{
    let v = chars_of(s);
    let (i, j) = trim_bounds(&v);
    string_of_range(&v, i, j)
}

/// Character `i` of `s`.
pub fn s_get(s: &str, i: usize) -> (c: char)
    requires
        i < s@.len(),
    ensures
        c == s@[i as int],
{
    s.get_char(i)
}

/// Whether `n` matches `h` at offset `i`, up to ASCII case.
fn ci_match_here(h: &Vec<char>, n: &str, nn: usize, i: usize) -> (r: bool)
    requires
        nn == n@.len(),
        i + nn <= h@.len(),
    ensures
        r == ci_match_at(h@, n@, i as int),
{
    let hn = h.len();
    let mut j: usize = 0;
    while j < nn
        invariant
            nn == n@.len(),
            i + nn <= hn == h@.len(),
            j <= nn,
            forall|y: int| 0 <= y < j ==> ci_eq(h@[i + y], n@[y]),
        decreases nn - j,
    {
        if !char_ci_eq(h[i + j], s_get(n, j)) {
            assert(!ci_eq(h@[i + j], n@[j as int]));
            return false;
        }
        j = j + 1;
    }
    true
}

/// Whether `n` occurs in `h` up to ASCII case.
pub fn chars_contain_ci(h: &Vec<char>, n: &str) -> (r: bool)
    ensures
        r == contains_ci(h@, n@),
{
    let hn = h.len();
    let nn = n.unicode_len();
    if nn > hn {
        assert(forall|i: int| !ci_match_at(h@, n@, i));
        return false;
    }
    let mut i: usize = 0;
    while i <= hn - nn
        invariant
            nn <= hn == h@.len(),
            nn == n@.len(),
            i <= hn - nn + 1,
            forall|x: int| 0 <= x < i ==> !ci_match_at(h@, n@, x),
        decreases hn + 1 - nn - i,
    {
        if ci_match_here(h, n, nn, i) {
            return true;
        }
        i = i + 1;
    }
    assert(forall|x: int| !ci_match_at(h@, n@, x)) by {
        assert(forall|x: int| x > hn - nn ==> !ci_match_at(h@, n@, x));
    }
    false
}

/// Whether the characters of `v` start with `p`, up to ASCII case.
pub fn chars_start_ci(v: &Vec<char>, p: &str) -> (r: bool)
    ensures
        r == ci_match_at(v@, p@, 0),
{
    let pn = p.unicode_len();
    if pn > v.len() {
        return false;
    }
    ci_match_here(v, p, pn, 0)
}

} // verus!
