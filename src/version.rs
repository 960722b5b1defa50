//! Operating-system versions: classification of raw version strings and their rendering.
use vstd::prelude::*;
use vstd::slice::slice_subrange;
use vstd::string::StringExecFns;
use crate::text::{
    lemma_char_from_hit, lemma_char_from_miss, skip_back, skip_fwd, char_from, chars_of, find_char, string_of,
    trim_bounds, trim_spec,
};

verus! {

/// Operating system version.
#[derive(Debug, Clone, PartialEq, Eq, PartialOrd, Ord, Hash)]
pub enum Version {
    /// Unknown version.
    Unknown,
    /// Semantic version (major.minor.build.release).
    Semantic(u32, u32, u32, u32),
    /// Rolling version. Optionally contains the release date in the string format.
    Rolling(Option<String>),
    /// Custom version format.
    Custom(String),
}

/// The mathematical value of a [`Version`]: strings seen as character sequences.
pub enum VersionView {
    Unknown,
    Semantic(u32, u32, u32, u32),
    Rolling(Option<Seq<char>>),
    Custom(Seq<char>),
}

impl View for Version {
    type V = VersionView;

    open spec fn view(&self) -> VersionView {
        match self {
            Version::Unknown => VersionView::Unknown,
            Version::Semantic(a, b, c, d) => VersionView::Semantic(*a, *b, *c, *d),
            Version::Rolling(None) => VersionView::Rolling(None),
            Version::Rolling(Some(date)) => VersionView::Rolling(Some(date@)),
            Version::Custom(s) => VersionView::Custom(s@),
        }
    }
}

pub open spec fn is_digit(c: char) -> bool {
    '0' <= c && c <= '9'
}

pub open spec fn digit_value(c: char) -> nat {
    (c as u32 - '0' as u32) as nat
}

pub open spec fn digit_char(d: nat) -> char {
    ((d + 48) as u8) as char
}

/// The number that a string of decimal digits denotes.
pub open spec fn dec_value(s: Seq<char>) -> nat
    decreases s.len(),
{
    if s.len() == 0 {
        0
    } else {
        dec_value(s.drop_last()) * 10 + digit_value(s.last())
    }
}

/// The decimal digits of `n`, without leading zeros.
pub open spec fn dec_string(n: nat) -> Seq<char>
    decreases n,
{
    if n < 10 {
        seq![digit_char(n)]
    } else {
        dec_string(n / 10).push(digit_char(n % 10))
    }
}

pub open spec fn all_digits(s: Seq<char>) -> bool {
    forall|i: int| 0 <= i < s.len() ==> is_digit(#[trigger] s[i])
}

/// `s` without a leading `+` sign.
pub open spec fn unsigned_part(s: Seq<char>) -> Seq<char> {
    if s.len() > 0 && s[0] == '+' { s.drop_first() } else { s }
}

/// A `u32` in base 10 as `str::parse` reads it: an optional `+`, then one or more ASCII
/// digits, with a value that fits in 32 bits.
pub open spec fn parse_u32_spec(s: Seq<char>) -> Option<u32> {
    let d = unsigned_part(s);
    if d.len() > 0 && all_digits(d) && dec_value(d) <= u32::MAX {
        Some(dec_value(d) as u32)
    } else {
        None
    }
}

/// The pieces of `s[i..]` between dots, as `str::split` yields them.
pub open spec fn split_from(s: Seq<char>, i: int) -> Seq<Seq<char>>
    decreases s.len() + 1 - i,
{
    if i < 0 || i > s.len() {
        Seq::empty()
    } else {
        let d = char_from(s, '.', i);
        if i <= d < s.len() {
            seq![s.subrange(i, d)] + split_from(s, d + 1)
        } else {
            seq![s.subrange(i, s.len() as int)]
        }
    }
}

/// The dot-separated fields of `s`, as `str::split_terminator` yields them: a trailing
/// empty piece is not a field.
pub open spec fn dot_fields(s: Seq<char>) -> Seq<Seq<char>> {
    let p = split_from(s, 0);
    if p.len() > 0 && p.last().len() == 0 {
        p.drop_last()
    } else {
        p
    }
}

/// Field `i` of a version as a number; a missing field counts as `0`.
pub open spec fn component(f: Seq<Seq<char>>, i: int) -> Option<u32> {
    if i < f.len() {
        parse_u32_spec(f[i])
    } else {
        Some(0)
    }
}

/// The four components of a semantic version string: one to four dot-separated decimal
/// numbers once surrounding whitespace is trimmed, a trailing dot allowed.
pub open spec fn parse_version_spec(s: Seq<char>) -> Option<(u32, u32, u32, u32)> {
    let f = dot_fields(trim_spec(s, false));
    if f.len() == 0 || f.len() > 4 {
        None
    } else {
        match (component(f, 0), component(f, 1), component(f, 2), component(f, 3)) {
            (Some(a), Some(b), Some(c), Some(d)) => Some((a, b, c, d)),
            _ => None,
        }
    }
}

/// The version that a raw string denotes: `Unknown` when empty, `Semantic` when it parses
/// as one, else `Custom` holding the raw string unchanged.
pub open spec fn from_string_spec(s: Seq<char>) -> VersionView {
    if s.len() == 0 {
        VersionView::Unknown
    } else {
        match parse_version_spec(s) {
            Some((a, b, c, d)) => VersionView::Semantic(a, b, c, d),
            None => VersionView::Custom(s),
        }
    }
}

/// The text of a version: `Semantic` as its four components joined by dots, `Unknown` as
/// `Unknown`, `Rolling` as `Rolling Release` with the date in parentheses when there is
/// one, and `Custom` as the stored string.
pub open spec fn render_spec(v: VersionView) -> Seq<char> {
    match v {
        VersionView::Unknown => "Unknown"@,
        VersionView::Semantic(a, b, c, d) => dec_string(a as nat) + seq!['.'] + dec_string(
            b as nat,
        ) + seq!['.'] + dec_string(c as nat) + seq!['.'] + dec_string(d as nat),
        VersionView::Rolling(None) => "Rolling Release"@,
        VersionView::Rolling(Some(date)) => "Rolling Release ("@ + date + ")"@,
        VersionView::Custom(s) => s,
    }
}

/// Appends the decimal digits of `n` to `out`.
fn push_decimal(out: &mut Vec<char>, n: u32)
    ensures
        final(out)@ == old(out)@ + dec_string(n as nat),
    decreases n,
{
    if n < 10 {
        out.push(((n as u8) + 48) as char);
        assert(final(out)@ =~= old(out)@ + dec_string(n as nat));
    } else {
        push_decimal(out, n / 10);
        out.push((((n % 10) as u8) + 48) as char);
        assert(final(out)@ =~= old(out)@ + dec_string(n as nat));
    }
}

impl Version {
    /// The text of this version.
    pub fn to_string(&self) -> (r: String)
        ensures
            r@ == render_spec(self@),
    {
        match self {
            Version::Unknown => String::from_str("Unknown"),
            Version::Semantic(a, b, c, d) => {
                let mut out: Vec<char> = Vec::new();
                push_decimal(&mut out, *a);
                out.push('.');
                push_decimal(&mut out, *b);
                out.push('.');
                push_decimal(&mut out, *c);
                out.push('.');
                push_decimal(&mut out, *d);
                let ghost da = dec_string(*a as nat);
                let ghost db = dec_string(*b as nat);
                let ghost dc = dec_string(*c as nat);
                let ghost dd = dec_string(*d as nat);
                assert(out@ =~= da + seq!['.'] + db + seq!['.'] + dc + seq!['.'] + dd);
                string_of(out.as_slice())
            },
            Version::Rolling(None) => String::from_str("Rolling Release"),
            Version::Rolling(Some(date)) => String::from_str("Rolling Release (").concat(
                date.as_str(),
            ).concat(")"),
            Version::Custom(s) => s.clone(),
        }
    }

    /// Constructs a `Version` from the given string.
    pub fn from_string(s: &str) -> (r: Version)
        ensures
            r@ == from_string_spec(s@),
    {
        if s.is_empty() {
            Version::Unknown
        } else {
            match parse_version(s) {
                Some((major, minor, build, release)) => Version::Semantic(
                    major,
                    minor,
                    build,
                    release,
                ),
                None => Version::Custom(String::from_str(s)),
            }
        }
    }
}

/// Reads a `u32` in base 10, as `str::parse` does.
pub(crate) fn parse_u32(v: &[char]) -> (r: Option<u32>)
    ensures
        r == parse_u32_spec(v@),
{
    let n = v.len();
    let start: usize = if n > 0 && v[0] == '+' { 1 } else { 0 };
    let ghost d = unsigned_part(v@);
    assert(d =~= v@.subrange(start as int, n as int));
    if start == n {
        return None;
    }
    // Saturates just above `u32::MAX`, so that it never overflows.
    let mut acc: u64 = 0;
    let mut i: usize = start;
    while i < n
        invariant
            start <= i <= n == v@.len(),
            d == v@.subrange(start as int, n as int),
            d == unsigned_part(v@),
            forall|k: int| start <= k < i ==> is_digit(#[trigger] v@[k]),
            acc == if dec_value(v@.subrange(start as int, i as int)) > u32::MAX {
                u32::MAX as nat + 1
            } else {
                dec_value(v@.subrange(start as int, i as int))
            },
        decreases n - i,
    {
        let c = v[i];
        if !('0' <= c && c <= '9') {
            assert(d[i - start] == c && !is_digit(d[i - start]));
            return None;
        }
        let ghost prev = v@.subrange(start as int, i as int);
        assert(v@.subrange(start as int, i + 1).drop_last() =~= prev);
        let dv = (c as u32 - '0' as u32) as u64;
        acc = acc * 10 + dv;
        if acc > u32::MAX as u64 {
            acc = u32::MAX as u64 + 1;
        }
        i = i + 1;
    }
    assert(forall|k: int| 0 <= k < d.len() ==> d[k] == v@[start + k]);
    if acc > u32::MAX as u64 {
        None
    } else {
        Some(acc as u32)
    }
}

/// The bounds of the dot-separated fields of `v`, trailing empty piece dropped.
fn dot_field_bounds(v: &[char]) -> (r: Vec<(usize, usize)>)
    ensures
        forall|k: int| 0 <= k < r@.len() ==> (#[trigger] r@[k]).0 <= r@[k].1 <= v@.len(),
        Seq::new(r@.len(), |k: int| v@.subrange(r@[k].0 as int, r@[k].1 as int)) == dot_fields(v@),
{
    let n = v.len();
    let mut out: Vec<(usize, usize)> = Vec::new();
    let mut i: usize = 0;
    loop
        invariant
            i <= n == v@.len(),
            forall|k: int| 0 <= k < out@.len() ==> (#[trigger] out@[k]).0 <= out@[k].1 <= v@.len(),
            Seq::new(out@.len(), |k: int| v@.subrange(out@[k].0 as int, out@[k].1 as int))
                + split_from(v@, i as int) == split_from(v@, 0),
        decreases n - i,
    {
        let d = find_char(v, '.', i);
        let ghost before = Seq::new(out@.len(), |k: int| v@.subrange(out@[k].0 as int, out@[k].1 as int));
        out.push((i, d));
        let ghost after = Seq::new(out@.len(), |k: int| v@.subrange(out@[k].0 as int, out@[k].1 as int));
        assert(after =~= before.push(v@.subrange(i as int, d as int)));
        if d == n {
            assert(after + Seq::empty() =~= before + split_from(v@, i as int));
            if i == d {
                out.pop();
                let ghost popped = Seq::new(out@.len(), |k: int| v@.subrange(out@[k].0 as int, out@[k].1 as int));
                assert(popped =~= after.drop_last());
            }
            return out;
        }
        assert(after + split_from(v@, d + 1) =~= before + split_from(v@, i as int));
        i = d + 1;
    }
}

/// The semantic components of a version string, if it is one.
pub fn parse_version(s: &str) -> (r: Option<(u32, u32, u32, u32)>)
    ensures
        r == parse_version_spec(s@),
{
    let v = chars_of(s);
    let s = v.as_slice();
    let (lo, hi) = trim_bounds(s, false);
    let t = slice_subrange(s, lo, hi);
    let f = dot_field_bounds(t);
    let ghost fs = Seq::new(f@.len(), |k: int| t@.subrange(f@[k].0 as int, f@[k].1 as int));
    if f.len() == 0 || f.len() > 4 {
        return None;
    }
    let major = parse_field(t, &f, 0);
    let minor = parse_field(t, &f, 1);
    let build = parse_field(t, &f, 2);
    let release = parse_field(t, &f, 3);
    match (major, minor, build, release) {
        (Some(a), Some(b), Some(c), Some(d)) => Some((a, b, c, d)),
        _ => None,
    }
}

/// Field `i` of `t` as a number; `0` when there is no such field.
fn parse_field(t: &[char], f: &Vec<(usize, usize)>, i: usize) -> (r: Option<u32>)
    requires
        forall|k: int| 0 <= k < f@.len() ==> (#[trigger] f@[k]).0 <= f@[k].1 <= t@.len(),
    ensures
        r == component(
            Seq::new(f@.len(), |k: int| t@.subrange(f@[k].0 as int, f@[k].1 as int)),
            i as int,
        ),
{
    if i < f.len() {
        let (a, b) = f[i];
        parse_u32(slice_subrange(t, a, b))
    } else {
        Some(0)
    }
}

/// The decimal digits of `n` are digits, at least one, and denote `n`.
proof fn lemma_dec_string(n: nat)
    ensures
        dec_string(n).len() > 0,
        all_digits(dec_string(n)),
        dec_value(dec_string(n)) == n,
    decreases n,
{
    let c = digit_char(n % 10);
    assert(c as u32 == n % 10 + 48);
    assert(digit_value(c) == n % 10);
    assert(dec_string(n).last() == c);
    if n < 10 {
        assert(dec_string(n).drop_last() =~= Seq::<char>::empty());
        assert(dec_value(dec_string(n)) == dec_value(Seq::<char>::empty()) * 10 + n % 10);
    } else {
        lemma_dec_string(n / 10);
        assert(dec_string(n).drop_last() =~= dec_string(n / 10));
        assert(dec_value(dec_string(n)) == (n / 10) * 10 + n % 10);
        assert(n == (n / 10) * 10 + n % 10) by (nonlinear_arith);
    }
}

proof fn lemma_parse_dec_string(n: u32)
    ensures
        parse_u32_spec(dec_string(n as nat)) == Some(n),
{
    lemma_dec_string(n as nat);
    assert(is_digit(dec_string(n as nat)[0]));
}

/// Splitting at `i`, where the field `x` stands and a dot follows it.
proof fn lemma_split_at_field(s: Seq<char>, i: int, x: Seq<char>)
    requires
        0 <= i,
        i + x.len() < s.len(),
        s.subrange(i, i + x.len()) == x,
        s[i + x.len()] == '.',
        all_digits(x),
    ensures
        split_from(s, i) == seq![x] + split_from(s, i + x.len() + 1),
{
    assert forall|k: int| i <= k < i + x.len() implies s[k] != '.' by {
        assert(s[k] == x[k - i]);
        assert(is_digit(x[k - i]));
    }
    lemma_char_from_hit(s, '.', i, i + x.len());
}

/// Splitting at `i`, where the last field `x` stands.
proof fn lemma_split_last_field(s: Seq<char>, i: int, x: Seq<char>)
    requires
        0 <= i,
        i + x.len() == s.len(),
        s.subrange(i, i + x.len()) == x,
        all_digits(x),
    ensures
        split_from(s, i) == seq![x],
{
    assert forall|k: int| i <= k < s.len() implies s[k] != '.' by {
        assert(s[k] == x[k - i]);
        assert(is_digit(x[k - i]));
    }
    lemma_char_from_miss(s, '.', i);
}

/// Four fields joined by dots.
#[verifier::opaque]
pub open spec fn join4(a: Seq<char>, b: Seq<char>, c: Seq<char>, d: Seq<char>) -> Seq<char> {
    a + seq!['.'] + b + seq!['.'] + c + seq!['.'] + d
}

/// Where each field of `join4(a, b, c, d)` stands, and the dots between them.
proof fn lemma_join4_layout(a: Seq<char>, b: Seq<char>, c: Seq<char>, d: Seq<char>)
    ensures
        ({
            let s = join4(a, b, c, d);
            let p1 = a.len() as int;
            let p2 = p1 + 1 + b.len();
            let p3 = p2 + 1 + c.len();
            &&& s.len() == p3 + 1 + d.len()
            &&& s.subrange(0, p1) == a
            &&& s[p1] == '.'
            &&& s.subrange(p1 + 1, p2) == b
            &&& s[p2] == '.'
            &&& s.subrange(p2 + 1, p3) == c
            &&& s[p3] == '.'
            &&& s.subrange(p3 + 1, s.len() as int) == d
        }),
{
    reveal(join4);
    let s = join4(a, b, c, d);
    let p1 = a.len() as int;
    let p2 = p1 + 1 + b.len();
    let p3 = p2 + 1 + c.len();
    assert(s.subrange(0, p1) =~= a);
    assert(s.subrange(p1 + 1, p2) =~= b);
    assert(s.subrange(p2 + 1, p3) =~= c);
    assert(s.subrange(p3 + 1, s.len() as int) =~= d);
}

/// Text that starts and ends with a digit has nothing to trim.
proof fn lemma_trim_digit_ends(s: Seq<char>)
    requires
        s.len() > 0,
        is_digit(s[0]),
        is_digit(s[s.len() - 1]),
    ensures
        trim_spec(s, false) == s,
{
    assert(skip_fwd(s, false, true, 0) == 0);
    assert(skip_back(s, false, 0, s.len() as int) == s.len());
    assert(s.subrange(0, s.len() as int) =~= s);
}

/// Four non-empty digit fields joined by dots split back into those fields.
proof fn lemma_join4_fields(a: Seq<char>, b: Seq<char>, c: Seq<char>, d: Seq<char>)
    requires
        a.len() > 0 && b.len() > 0 && c.len() > 0 && d.len() > 0,
        all_digits(a) && all_digits(b) && all_digits(c) && all_digits(d),
    ensures
        trim_spec(join4(a, b, c, d), false) == join4(a, b, c, d),
        dot_fields(join4(a, b, c, d)) == seq![a, b, c, d],
{
    let s = join4(a, b, c, d);
    let p1 = a.len() as int;
    let p2 = p1 + 1 + b.len();
    let p3 = p2 + 1 + c.len();
    lemma_join4_layout(a, b, c, d);
    assert(s[0] == s.subrange(0, p1)[0]);
    assert(is_digit(a[0]));
    assert(s[s.len() - 1] == s.subrange(p3 + 1, s.len() as int)[d.len() - 1]);
    assert(is_digit(d[d.len() - 1]));
    lemma_trim_digit_ends(s);
    lemma_split_at_field(s, 0, a);
    lemma_split_at_field(s, p1 + 1, b);
    lemma_split_at_field(s, p2 + 1, c);
    lemma_split_last_field(s, p3 + 1, d);
    assert(split_from(s, 0) =~= seq![a, b, c, d]);
}

/// Rendering a semantic version and reading the text back gives the same version.
pub proof fn lemma_semantic_round_trip(major: u32, minor: u32, build: u32, release: u32)
    ensures
        from_string_spec(render_spec(VersionView::Semantic(major, minor, build, release)))
            == VersionView::Semantic(major, minor, build, release),
{
    let a = dec_string(major as nat);
    let b = dec_string(minor as nat);
    let c = dec_string(build as nat);
    let d = dec_string(release as nat);
    lemma_parse_dec_string(major);
    lemma_parse_dec_string(minor);
    lemma_parse_dec_string(build);
    lemma_parse_dec_string(release);
    lemma_dec_string(major as nat);
    lemma_dec_string(minor as nat);
    lemma_dec_string(build as nat);
    lemma_dec_string(release as nat);
    lemma_join4_fields(a, b, c, d);
    reveal(join4);
    assert(render_spec(VersionView::Semantic(major, minor, build, release)) == join4(a, b, c, d));
}

} // verus!
