//! Character-level helpers shared by the matchers and the version parser: conversion
//! between `&str` and `Vec<char>`, whitespace classes and index scans.
use vstd::prelude::*;
use vstd::std_specs::iter::IteratorSpec;

verus! {

/// The characters of an optional string.
pub open spec fn opt_view(o: Option<String>) -> Option<Seq<char>> {
    match o {
        Some(x) => Some(x@),
        None => None,
    }
}

/// The Unicode `White_Space` property, which is what `char::is_whitespace` tests.
pub open spec fn is_space(c: char) -> bool {
    ('\u{9}' <= c && c <= '\u{d}') || c == ' ' || c == '\u{85}' || c == '\u{a0}'
        || c == '\u{1680}' || ('\u{2000}' <= c && c <= '\u{200a}') || c == '\u{2028}'
        || c == '\u{2029}' || c == '\u{202f}' || c == '\u{205f}' || c == '\u{3000}'
}

/// The characters a trim removes: whitespace, and also `"` when `quotes` is set.
pub open spec fn trims(c: char, quotes: bool) -> bool {
    is_space(c) || (quotes && c == '"')
}

/// First index `j >= i` whose character is not (when `skipping`) or is (otherwise)
/// trimmable; the length when there is none.
pub open spec fn skip_fwd(s: Seq<char>, quotes: bool, skipping: bool, i: int) -> int
    decreases s.len() - i,
{
    if i < 0 || i >= s.len() {
        if i < 0 { 0 } else { s.len() as int }
    } else if trims(s[i], quotes) == skipping {
        skip_fwd(s, quotes, skipping, i + 1)
    } else {
        i
    }
}

/// Walking back from `j`, never below `lo`: the end of `s[lo..j]` once trailing
/// trimmable characters are dropped.
pub open spec fn skip_back(s: Seq<char>, quotes: bool, lo: int, j: int) -> int
    decreases j - lo,
{
    if j <= lo {
        lo
    } else if trims(s[j - 1], quotes) {
        skip_back(s, quotes, lo, j - 1)
    } else {
        j
    }
}

/// `s` with leading and trailing trimmable characters removed.
pub open spec fn trim_spec(s: Seq<char>, quotes: bool) -> Seq<char> {
    let lo = skip_fwd(s, quotes, true, 0);
    s.subrange(lo, skip_back(s, quotes, lo, s.len() as int))
}

/// First index `j >= i` holding `c`; the length when there is none.
pub open spec fn char_from(s: Seq<char>, c: char, i: int) -> int
    decreases s.len() - i,
{
    if i < 0 {
        0
    } else if i >= s.len() {
        s.len() as int
    } else if s[i] == c {
        i
    } else {
        char_from(s, c, i + 1)
    }
}

/// `char_from` stops at the first `c` from `i` on.
pub proof fn lemma_char_from_hit(s: Seq<char>, c: char, i: int, j: int)
    requires
        0 <= i <= j < s.len(),
        s[j] == c,
        forall|k: int| i <= k < j ==> s[k] != c,
    ensures
        char_from(s, c, i) == j,
    decreases j - i,
{
    if i < j {
        lemma_char_from_hit(s, c, i + 1, j);
    }
}

/// `char_from` reaches the end when no `c` stands from `i` on.
pub proof fn lemma_char_from_miss(s: Seq<char>, c: char, i: int)
    requires
        0 <= i <= s.len(),
        forall|k: int| i <= k < s.len() ==> s[k] != c,
    ensures
        char_from(s, c, i) == s.len(),
    decreases s.len() - i,
{
    if i < s.len() {
        lemma_char_from_miss(s, c, i + 1);
    }
}

/// `pat` stands in `s` at index `i`.
pub open spec fn occurs_at(s: Seq<char>, pat: Seq<char>, i: int) -> bool {
    0 <= i && i + pat.len() <= s.len() && s.subrange(i, i + pat.len()) == pat
}

/// First index `j >= i` at which `pat` stands in `s`.
pub open spec fn find_from(s: Seq<char>, pat: Seq<char>, i: int) -> Option<int>
    decreases s.len() + 1 - i,
{
    if i < 0 || i + pat.len() > s.len() {
        None
    } else if occurs_at(s, pat, i) {
        Some(i)
    } else {
        find_from(s, pat, i + 1)
    }
}

/// Relies on `char::is_whitespace`: true exactly for the `White_Space` characters.
#[verifier::external_body]
pub(crate) fn char_is_space(c: char) -> (r: bool)
    ensures
        r == is_space(c),
{
    c.is_whitespace()
}

/// Whether a trim removes `c`.
pub(crate) fn char_trims(c: char, quotes: bool) -> (r: bool)
    ensures
        r == trims(c, quotes),
{
    char_is_space(c) || (quotes && c == '"')
}

/// The characters of `s` in order.
pub(crate) fn chars_of(s: &str) -> (r: Vec<char>)
    ensures
        r@ == s@,
{
    let mut it = s.chars();
    let mut out: Vec<char> = Vec::new();
    loop
        invariant
            out@ + it.remaining() == s@,
            it.decrease() is Some,
        decreases it.decrease()->0,
    {
        match it.next() {
            Some(c) => out.push(c),
            None => {
                assert(out@ + Seq::<char>::empty() =~= out@);
                return out;
            },
        }
    }
}

/// Relies on `String::from_iter`: the string made of the characters of `v` in order.
#[verifier::external_body]
pub(crate) fn string_of(v: &[char]) -> (r: String)
    ensures
        r@ == v@,
{
    String::from_iter(v.iter())
}

/// Scans forward from `i` over characters whose trimmability is `skipping`.
pub(crate) fn skip_forward(v: &[char], quotes: bool, skipping: bool, i: usize) -> (r: usize)
    requires
        i <= v@.len(),
    ensures
        r as int == skip_fwd(v@, quotes, skipping, i as int),
        i <= r <= v@.len(),
{
    let mut j = i;
    while j < v.len() && char_trims(v[j], quotes) == skipping
        invariant
            i <= j <= v@.len(),
            skip_fwd(v@, quotes, skipping, j as int) == skip_fwd(v@, quotes, skipping, i as int),
        decreases v@.len() - j,
    {
        j = j + 1;
    }
    j
}

/// Scans back from `j`, not below `lo`, over trimmable characters.
pub(crate) fn skip_backward(v: &[char], quotes: bool, lo: usize, j: usize) -> (r: usize)
    requires
        lo <= j <= v@.len(),
    ensures
        r as int == skip_back(v@, quotes, lo as int, j as int),
        lo <= r <= j,
{
    let mut k = j;
    while k > lo && char_trims(v[k - 1], quotes)
        invariant
            lo <= k <= j <= v@.len(),
            skip_back(v@, quotes, lo as int, k as int) == skip_back(v@, quotes, lo as int, j as int),
        decreases k,
    {
        k = k - 1;
    }
    k
}

/// The index of the first `c` from `i` on, or the length.
pub(crate) fn find_char(v: &[char], c: char, i: usize) -> (r: usize)
    requires
        i <= v@.len(),
    ensures
        r as int == char_from(v@, c, i as int),
        i <= r <= v@.len(),
{
    let mut j = i;
    while j < v.len() && v[j] != c
        invariant
            i <= j <= v@.len(),
            char_from(v@, c, j as int) == char_from(v@, c, i as int),
        decreases v@.len() - j,
    {
        j = j + 1;
    }
    j
}

/// Whether `pat` stands in `v` at `i`.
pub(crate) fn matches_at(v: &[char], pat: &[char], i: usize) -> (r: bool)
    ensures
        r == occurs_at(v@, pat@, i as int),
{
    if pat.len() > v.len() || i > v.len() - pat.len() {
        return false;
    }
    let mut k: usize = 0;
    while k < pat.len()
        invariant
            k <= pat@.len(),
            i + pat@.len() <= v@.len(),
            v@.len() == v.len(),
            forall|t: int| 0 <= t < k ==> v@[i + t] == pat@[t],
        decreases pat@.len() - k,
    {
        if v[i + k] != pat[k] {
            assert(v@.subrange(i as int, i + pat@.len())[k as int] != pat@[k as int]);
            return false;
        }
        k = k + 1;
    }
    assert(v@.subrange(i as int, i + pat@.len()) =~= pat@);
    true
}

/// The index of the first occurrence of `pat` in `v`.
pub(crate) fn find_seq(v: &[char], pat: &[char]) -> (r: Option<usize>)
    ensures
        r matches Some(j) ==> find_from(v@, pat@, 0) == Some(j as int) && occurs_at(v@, pat@, j as int),
        r is None ==> find_from(v@, pat@, 0) is None,
{
    if pat.len() > v.len() {
        return None;
    }
    let last = v.len() - pat.len();
    let mut i: usize = 0;
    loop
        invariant
            last + pat@.len() == v@.len(),
            i <= last,
            find_from(v@, pat@, i as int) == find_from(v@, pat@, 0),
        decreases last - i,
    {
        if matches_at(v, pat, i) {
            return Some(i);
        }
        if i == last {
            assert(find_from(v@, pat@, i + 1) is None);
            return None;
        }
        i = i + 1;
    }
}

/// The bounds of `v[lo..hi]` once leading and trailing trimmable characters are dropped.
pub(crate) fn trim_bounds(v: &[char], quotes: bool) -> (r: (usize, usize))
    ensures
        r.0 <= r.1 <= v@.len(),
        v@.subrange(r.0 as int, r.1 as int) == trim_spec(v@, quotes),
{
    let lo = skip_forward(v, quotes, true, 0);
    let hi = skip_backward(v, quotes, lo, v.len());
    (lo, hi)
}

} // verus!
