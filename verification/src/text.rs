//! Character-level scanning used by the rule parser: whitespace trimming,
//! the `->` arrow, the last `:` and trailing `:` runs, all over `char`
//! sequences with the exact meaning of the `str` methods they stand for.

use vstd::prelude::*;

verus! {

/// The Unicode `White_Space` property: the set that `char::is_whitespace`
/// (and therefore `str::trim`) treats as whitespace.
pub open spec fn is_white_space(c: char) -> bool {
    let u = c as u32;
    ||| 0x09 <= u <= 0x0D
    ||| u == 0x20
    ||| u == 0x85
    ||| u == 0xA0
    ||| u == 0x1680
    ||| 0x2000 <= u <= 0x200A
    ||| u == 0x2028
    ||| u == 0x2029
    ||| u == 0x202F
    ||| u == 0x205F
    ||| u == 0x3000
}

/// Whether `c` has the Unicode `White_Space` property.
pub fn is_white_space_char(c: char) -> (r: bool)
    ensures
        r == is_white_space(c),
{
    let u = c as u32;
    (0x09 <= u && u <= 0x0D) || u == 0x20 || u == 0x85 || u == 0xA0 || u == 0x1680 || (0x2000
        <= u && u <= 0x200A) || u == 0x2028 || u == 0x2029 || u == 0x202F || u == 0x205F || u
        == 0x3000
}

/// `s` without its leading whitespace (`str::trim_start`).
pub open spec fn trim_start(s: Seq<char>) -> Seq<char>
    decreases s.len(),
{
    if s.len() > 0 && is_white_space(s[0]) {
        trim_start(s.drop_first())
    } else {
        s
    }
}

/// `s` without its trailing whitespace (`str::trim_end`).
pub open spec fn trim_end(s: Seq<char>) -> Seq<char>
    decreases s.len(),
{
    if s.len() > 0 && is_white_space(s.last()) {
        trim_end(s.drop_last())
    } else {
        s
    }
}

/// `s` without leading and trailing whitespace (`str::trim`).
pub open spec fn trim(s: Seq<char>) -> Seq<char> {
    trim_end(trim_start(s))
}

/// `s` without its trailing run of `:` (`str::trim_end_matches(':')`).
pub open spec fn trim_end_colons(s: Seq<char>) -> Seq<char>
    decreases s.len(),
{
    if s.len() > 0 && s.last() == ':' {
        trim_end_colons(s.drop_last())
    } else {
        s
    }
}

/// Whether `->` starts at index `i` of `s`.
pub open spec fn arrow_at(s: Seq<char>, i: int) -> bool {
    0 <= i && i + 1 < s.len() && s[i] == '-' && s[i + 1] == '>'
}

/// The first index `>= i` at which `->` starts.
pub open spec fn arrow_from(s: Seq<char>, i: int) -> Option<int>
    decreases s.len() - i,
{
    if i < 0 || i + 1 >= s.len() {
        None
    } else if arrow_at(s, i) {
        Some(i)
    } else {
        arrow_from(s, i + 1)
    }
}

/// The first index at which `->` starts (what `str::find("->")` reports).
pub open spec fn first_arrow(s: Seq<char>) -> Option<int> {
    arrow_from(s, 0)
}

/// The last index `< j` that holds a `:`.
pub open spec fn colon_before(s: Seq<char>, j: int) -> Option<int>
    decreases j,
{
    if j <= 0 || j > s.len() {
        None
    } else if s[j - 1] == ':' {
        Some(j - 1)
    } else {
        colon_before(s, j - 1)
    }
}

/// The index of the last `:` of `s` (what `str::rfind(':')` reports).
pub open spec fn last_colon(s: Seq<char>) -> Option<int> {
    colon_before(s, s.len() as int)
}

/// The chars of `s`, in order.
pub fn chars_of(s: &str) -> (v: Vec<char>)
    ensures
        v@ == s@,
{
    broadcast use vstd::string::group_string_axioms;

    let mut v: Vec<char> = Vec::new();
    for c in it: s.chars()
        invariant
            v@ == it.seq().take(it.index()),
            it.seq() == s@,
    {
        v.push(c);
    }
    v
}

/// The range of `cs[lo..hi]` that remains after `str::trim`.
pub fn trim_range(cs: &Vec<char>, lo: usize, hi: usize) -> (r: (usize, usize))
    requires
        lo <= hi <= cs@.len(),
    ensures
        lo <= r.0 <= r.1 <= hi,
        cs@.subrange(r.0 as int, r.1 as int) == trim(cs@.subrange(lo as int, hi as int)),
{
    let ghost whole = cs@.subrange(lo as int, hi as int);
    let mut a = lo;
    while a < hi && is_white_space_char(cs[a])
        invariant
            lo <= a <= hi <= cs@.len(),
            trim_start(cs@.subrange(a as int, hi as int)) == trim_start(whole),
        decreases hi - a,
    {
        assert(cs@.subrange(a as int, hi as int).drop_first() =~= cs@.subrange(
            a + 1,
            hi as int,
        ));
        a = a + 1;
    }
    let ghost started = cs@.subrange(a as int, hi as int);
    assert(trim_start(started) == started);
    let mut b = hi;
    while b > a && is_white_space_char(cs[b - 1])
        invariant
            lo <= a <= b <= hi <= cs@.len(),
            trim_end(cs@.subrange(a as int, b as int)) == trim_end(started),
        decreases b - a,
    {
        assert(cs@.subrange(a as int, b as int).drop_last() =~= cs@.subrange(
            a as int,
            b - 1,
        ));
        b = b - 1;
    }
    (a, b)
}

/// The first index of `->` inside `cs[lo..hi]`, counted from `lo`.
pub fn find_arrow(cs: &Vec<char>, lo: usize, hi: usize) -> (r: Option<usize>)
    requires
        lo <= hi <= cs@.len(),
    ensures
        match first_arrow(cs@.subrange(lo as int, hi as int)) {
            Some(k) => r is Some && r->0 == lo + k,
            None => r is None,
        },
        r matches Some(k) ==> lo <= k && k + 2 <= hi,
{
    let ghost t = cs@.subrange(lo as int, hi as int);
    let mut i = lo;
    while hi - i > 1
        invariant
            lo <= i <= hi <= cs@.len(),
            t == cs@.subrange(lo as int, hi as int),
            arrow_from(t, i - lo) == arrow_from(t, 0),
        decreases hi - i,
    {
        if cs[i] == '-' && cs[i + 1] == '>' {
            return Some(i);
        }
        i = i + 1;
    }
    None
}

/// The index of the last `:` inside `cs[lo..hi]`, counted from `lo`.
pub fn find_last_colon(cs: &Vec<char>, lo: usize, hi: usize) -> (r: Option<usize>)
    requires
        lo <= hi <= cs@.len(),
    ensures
        match last_colon(cs@.subrange(lo as int, hi as int)) {
            Some(k) => r is Some && r->0 == lo + k,
            None => r is None,
        },
        r matches Some(j) ==> lo <= j < hi,
{
    let ghost t = cs@.subrange(lo as int, hi as int);
    let mut j = hi;
    while j > lo
        invariant
            lo <= j <= hi <= cs@.len(),
            t == cs@.subrange(lo as int, hi as int),
            colon_before(t, j - lo) == colon_before(t, t.len() as int),
        decreases j - lo,
    {
        if cs[j - 1] == ':' {
            return Some(j - 1);
        }
        j = j - 1;
    }
    None
}

/// The end of `cs[lo..hi]` once its trailing `:` run is removed.
pub fn trim_end_colons_range(cs: &Vec<char>, lo: usize, hi: usize) -> (r: usize)
    requires
        lo <= hi <= cs@.len(),
    ensures
        lo <= r <= hi,
        cs@.subrange(lo as int, r as int) == trim_end_colons(cs@.subrange(lo as int, hi as int)),
{
    let ghost whole = cs@.subrange(lo as int, hi as int);
    let mut b = hi;
    while b > lo && cs[b - 1] == ':'
        invariant
            lo <= b <= hi <= cs@.len(),
            trim_end_colons(cs@.subrange(lo as int, b as int)) == trim_end_colons(whole),
        decreases b - lo,
    {
        assert(cs@.subrange(lo as int, b as int).drop_last() =~= cs@.subrange(
            lo as int,
            b - 1,
        ));
        b = b - 1;
    }
    b
}

} // verus!

verus! {

/// The `:` that `colon_before(s, j)` reports is the last one before `j`.
pub proof fn lemma_colon_before(s: Seq<char>, j: int)
    requires
        0 <= j <= s.len(),
    ensures
        match colon_before(s, j) {
            Some(k) => 0 <= k < j && s[k] == ':' && forall|m: int| k < m < j ==> s[m] != ':',
            None => forall|m: int| 0 <= m < j ==> s[m] != ':',
        },
    decreases j,
{
    if j > 0 && s[j - 1] != ':' {
        lemma_colon_before(s, j - 1);
    }
}

/// Once trailing colons are removed, what is left does not end in `:`.
pub proof fn lemma_trim_end_colons(s: Seq<char>)
    ensures
        trim_end_colons(s).len() <= s.len(),
        trim_end_colons(s) == s.take(trim_end_colons(s).len() as int),
        trim_end_colons(s).len() > 0 ==> trim_end_colons(s).last() != ':',
    decreases s.len(),
{
    if s.len() > 0 && s.last() == ':' {
        lemma_trim_end_colons(s.drop_last());
        assert(s.drop_last().take(trim_end_colons(s).len() as int) =~= s.take(
            trim_end_colons(s).len() as int,
        ));
    } else {
        assert(s.take(s.len() as int) =~= s);
    }
}

} // verus!
