//! Character-level helpers shared by the cookie and Basic-auth parsers:
//! whitespace trimming, separator search and conversions between `str`,
//! `Vec<char>` and `String`.

use vstd::prelude::*;

verus! {

/// Trusted: `String::push` appends `ch` to the end of the string.
pub assume_specification[ String::push ](s: &mut String, ch: char)
    ensures
        final(s)@ == old(s)@.push(ch),
;

/// The characters of an optional string.
pub open spec fn opt_view(o: Option<&str>) -> Option<Seq<char>> {
    match o {
        Some(s) => Some(s@),
        None => None,
    }
}

/// The Unicode `White_Space` property, which `char::is_whitespace` and
/// therefore `str::trim` go by.
pub open spec fn is_space(c: char) -> bool {
    let u = c as u32;
    ||| 0x09 <= u <= 0x0D
    ||| u == 0x20
    ||| u == 0x85
    ||| u == 0xA0
    ||| u == 0x1680
    ||| 0x2000 <= u <= 0x200A
    ||| u == 0x2028
    ||| u == 0x2029
    ||| u == 0x202F
    ||| u == 0x205F
    ||| u == 0x3000
}

/// `s` without its leading whitespace.
pub open spec fn trim_start(s: Seq<char>) -> Seq<char>
    decreases s.len(),
{
    if s.len() > 0 && is_space(s[0]) {
        trim_start(s.drop_first())
    } else {
        s
    }
}

/// `s` without its trailing whitespace.
pub open spec fn trim_end(s: Seq<char>) -> Seq<char>
    decreases s.len(),
{
    if s.len() > 0 && is_space(s.last()) {
        trim_end(s.drop_last())
    } else {
        s
    }
}

/// What `str::trim` returns: `s` without leading and trailing whitespace.
pub open spec fn trim(s: Seq<char>) -> Seq<char> {
    trim_end(trim_start(s))
}

/// Index of the first `sep` in `s`, or `s.len()` when there is none.
pub open spec fn find_char(s: Seq<char>, sep: char) -> int
    decreases s.len(),
{
    if s.len() == 0 {
        0
    } else if s[0] == sep {
        0
    } else {
        1 + find_char(s.drop_first(), sep)
    }
}

/// `find_char` gives an index up to the length, at which `sep` stands
/// unless it is the length, and `sep` stands nowhere before it.
pub proof fn lemma_find_char_bounds(s: Seq<char>, sep: char)
    ensures
        0 <= find_char(s, sep) <= s.len(),
        find_char(s, sep) < s.len() ==> s[find_char(s, sep)] == sep,
        forall|i: int| 0 <= i < find_char(s, sep) ==> s[i] != sep,
    decreases s.len(),
{
    if s.len() > 0 && s[0] != sep {
        lemma_find_char_bounds(s.drop_first(), sep);
        assert forall|i: int| 0 <= i < find_char(s, sep) implies s[i] != sep by {
            if i > 0 {
                assert(s[i] == s.drop_first()[i - 1]);
            }
        }
    }
}

/// `find_char` is characterised by the position it stops at.
pub proof fn lemma_find_char_at(s: Seq<char>, sep: char, k: int)
    requires
        0 <= k <= s.len(),
        k < s.len() ==> s[k] == sep,
        forall|i: int| 0 <= i < k ==> s[i] != sep,
    ensures
        find_char(s, sep) == k,
    decreases k,
{
    if k > 0 {
        assert(s[0] != sep);
        let t = s.drop_first();
        assert forall|i: int| 0 <= i < k - 1 implies t[i] != sep by {
            assert(t[i] == s[i + 1]);
        }
        if k - 1 < t.len() {
            assert(t[k - 1] == s[k]);
        }
        lemma_find_char_at(t, sep, k - 1);
    }
}

/// Exact `char::is_whitespace`.
pub fn is_space_char(c: char) -> (res: bool)
    ensures
        res == is_space(c),
{
    let u = c as u32;
    (0x09 <= u && u <= 0x0D) || u == 0x20 || u == 0x85 || u == 0xA0 || u == 0x1680 || (0x2000
        <= u && u <= 0x200A) || u == 0x2028 || u == 0x2029 || u == 0x202F || u == 0x205F || u
        == 0x3000
}

/// The characters of `s`, in order.
pub fn chars_of(s: &str) -> (res: Vec<char>)
    ensures
        res@ == s@,
{
    let mut res: Vec<char> = Vec::new();
    for c in it: s.chars()
        invariant
            res@ == it.seq().take(it.index() as int),
    {
        res.push(c);
    }
    res
}

/// A `String` holding `v[lo..hi]`.
pub fn string_of_range(v: &Vec<char>, lo: usize, hi: usize) -> (res: String)
    requires
        lo <= hi <= v.len(),
    ensures
        res@ == v@.subrange(lo as int, hi as int),
{
    let mut res = String::new();
    let mut i = lo;
    while i < hi
        invariant
            lo <= i <= hi <= v.len(),
            res@ == v@.subrange(lo as int, i as int),
        decreases hi - i,
    {
        res.push(v[i]);
        assert(v@.subrange(lo as int, i + 1) =~= v@.subrange(lo as int, i as int).push(v@[i as int]));
        i = i + 1;
    }
    res
}

/// Bounds `(a, b)` with `v[a..b]` equal to `v[lo..hi]` trimmed.
pub fn trim_range(v: &Vec<char>, lo: usize, hi: usize) -> (res: (usize, usize))
    requires
        lo <= hi <= v.len(),
    ensures
        lo <= res.0 <= res.1 <= hi,
        v@.subrange(res.0 as int, res.1 as int) == trim(v@.subrange(lo as int, hi as int)),
{
    let mut a = lo;
    while a < hi && is_space_char(v[a])
        invariant
            lo <= a <= hi <= v.len(),
            trim_start(v@.subrange(lo as int, hi as int)) == trim_start(
                v@.subrange(a as int, hi as int),
            ),
        decreases hi - a,
    {
        assert(v@.subrange(a as int, hi as int).drop_first() =~= v@.subrange(a + 1, hi as int));
        a = a + 1;
    }
    assert(trim_start(v@.subrange(a as int, hi as int)) == v@.subrange(a as int, hi as int));
    let mut b = hi;
    while b > a && is_space_char(v[b - 1])
        invariant
            lo <= a <= b <= hi <= v.len(),
            trim_end(v@.subrange(a as int, hi as int)) == trim_end(
                v@.subrange(a as int, b as int),
            ),
        decreases b - a,
    {
        assert(v@.subrange(a as int, b as int).drop_last() =~= v@.subrange(a as int, b - 1));
        b = b - 1;
    }
    assert(trim_end(v@.subrange(a as int, b as int)) == v@.subrange(a as int, b as int));
    (a, b)
}

/// Index of the first `sep` at or after `lo`, or `v.len()`.
pub fn find_char_from(v: &Vec<char>, lo: usize, sep: char) -> (res: usize)
    requires
        lo <= v.len(),
    ensures
        lo <= res <= v.len(),
        res - lo == find_char(v@.subrange(lo as int, v.len() as int), sep),
{
    let mut e = lo;
    while e < v.len() && v[e] != sep
        invariant
            lo <= e <= v.len(),
            forall|i: int| lo <= i < e ==> v@[i] != sep,
        decreases v.len() - e,
    {
        e = e + 1;
    }
    proof {
        let t = v@.subrange(lo as int, v.len() as int);
        assert forall|i: int| 0 <= i < e - lo implies t[i] != sep by {
            assert(t[i] == v@[lo + i]);
        }
        if e < v.len() {
            assert(t[e - lo] == v@[e as int]);
        }
        lemma_find_char_at(t, sep, e - lo);
    }
    e
}

/// Whether `v[lo..hi]` equals `w`.
pub fn range_equals(v: &Vec<char>, lo: usize, hi: usize, w: &Vec<char>) -> (res: bool)
    requires
        lo <= hi <= v.len(),
    ensures
        res == (v@.subrange(lo as int, hi as int) == w@),
{
    if hi - lo != w.len() {
        assert(v@.subrange(lo as int, hi as int).len() != w@.len());
        return false;
    }
    let mut i: usize = 0;
    while i < w.len()
        invariant
            lo <= hi <= v.len(),
            hi - lo == w.len(),
            0 <= i <= w.len(),
            forall|j: int| 0 <= j < i ==> v@[lo + j] == w@[j],
        decreases w.len() - i,
    {
        if v[lo + i] != w[i] {
            assert(v@.subrange(lo as int, hi as int)[i as int] != w@[i as int]);
            return false;
        }
        i = i + 1;
    }
    assert(v@.subrange(lo as int, hi as int) =~= w@);
    true
}

/// Whether `w` is a prefix of `v[lo..hi]`.
pub fn range_starts_with(v: &Vec<char>, lo: usize, hi: usize, w: &Vec<char>) -> (res: bool)
    requires
        lo <= hi <= v.len(),
    ensures
        res == w@.is_prefix_of(v@.subrange(lo as int, hi as int)),
{
    if w.len() > hi - lo {
        return false;
    }
    let r = range_equals(v, lo, lo + w.len(), w);
    assert(v@.subrange(lo as int, hi as int).subrange(0, w@.len() as int) =~= v@.subrange(
        lo as int,
        lo + w@.len(),
    ));
    r
}

} // verus!
