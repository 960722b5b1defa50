//! Stateless strategies that pull one field out of raw descriptor text.
use vstd::prelude::*;
use vstd::slice::slice_subrange;
use crate::text::{
    lemma_char_from_hit, lemma_char_from_miss, char_from, chars_of, find_char, find_from, find_seq, matches_at, occurs_at, opt_view,
    skip_forward, skip_fwd, string_of, trim_bounds, trim_spec,
};

verus! {

/// An implementation to match on simple strings.
#[derive(Debug, Clone, Copy)]
pub enum Matcher {
    /// Considers the entire string (trimmed) to be the match.
    AllTrimmed,
    /// The whitespace-delimited word that follows the first occurrence of `prefix`.
    PrefixedWord { prefix: &'static str },
    /// Like `PrefixedWord`, but only when the word neither starts nor ends with `.`.
    PrefixedVersion { prefix: &'static str },
    /// The value of the first line of the form `key=value`, without surrounding quotes
    /// and whitespace.
    KeyValue { key: &'static str },
    /// The text strictly between the first `start` and the next `end` after it.
    Between { start: char, end: char },
}

/// The word after the first occurrence of `prefix`: leading whitespace is skipped and the
/// word runs to the next whitespace character or the end of the text.
pub open spec fn prefixed_word_spec(s: Seq<char>, prefix: Seq<char>) -> Option<Seq<char>> {
    match find_from(s, prefix, 0) {
        None => None,
        Some(p) => {
            let a = skip_fwd(s, false, true, p + prefix.len());
            Some(s.subrange(a, skip_fwd(s, false, false, a)))
        },
    }
}

/// A version word neither starts nor ends with a dot.
pub open spec fn is_valid_version_spec(w: Seq<char>) -> bool {
    !(w.len() > 0 && w[0] == '.') && !(w.len() > 0 && w.last() == '.')
}

pub open spec fn prefixed_version_spec(s: Seq<char>, prefix: Seq<char>) -> Option<Seq<char>> {
    match prefixed_word_spec(s, prefix) {
        Some(w) => if is_valid_version_spec(w) { Some(w) } else { None },
        None => None,
    }
}

/// The value on the first line, starting at or after line start `i`, that begins with
/// `pat` (the key followed by `=`), with quotes and whitespace trimmed off both ends.
pub open spec fn key_from(s: Seq<char>, pat: Seq<char>, i: int) -> Option<Seq<char>>
    decreases s.len() + 1 - i,
{
    if i < 0 || i > s.len() {
        None
    } else {
        let e = char_from(s, '\n', i);
        if occurs_at(s, pat, i) && i + pat.len() <= e {
            Some(trim_spec(s.subrange(i + pat.len(), e), true))
        } else if i <= e < s.len() {
            key_from(s, pat, e + 1)
        } else {
            None
        }
    }
}

pub open spec fn key_value_spec(s: Seq<char>, key: Seq<char>) -> Option<Seq<char>> {
    key_from(s, key.push('='), 0)
}

/// The text between the first `start` and the next `end`. When no `end` follows, the
/// text from `start` (included) to the end is returned instead of nothing: a quirk kept
/// on purpose for compatibility.
pub open spec fn between_spec(s: Seq<char>, start: char, end: char) -> Option<Seq<char>> {
    let a = char_from(s, start, 0);
    if a >= s.len() {
        None
    } else {
        let b = char_from(s, end, a + 1);
        if b < s.len() {
            Some(s.subrange(a + 1, b))
        } else {
            Some(s.subrange(a, s.len() as int))
        }
    }
}

impl Matcher {
    /// What `find` returns on text `s`.
    pub open spec fn spec_find(&self, s: Seq<char>) -> Option<Seq<char>> {
        match *self {
            Matcher::AllTrimmed => Some(trim_spec(s, false)),
            Matcher::PrefixedWord { prefix } => prefixed_word_spec(s, prefix@),
            Matcher::PrefixedVersion { prefix } => prefixed_version_spec(s, prefix@),
            Matcher::KeyValue { key } => key_value_spec(s, key@),
            Matcher::Between { start, end } => between_spec(s, start, end),
        }
    }

    /// Find the match on the input `string` according to the matcher variant.
    pub fn find(&self, string: &str) -> (r: Option<String>)
        ensures
            opt_view(r) == self.spec_find(string@),
    {
        let v = chars_of(string);
        match *self {
            Matcher::AllTrimmed => {
                let (a, b) = trim_bounds(v.as_slice(), false);
                Some(string_of(slice_subrange(v.as_slice(), a, b)))
            },
            Matcher::PrefixedWord { prefix } => find_prefixed_word(v.as_slice(), prefix),
            Matcher::PrefixedVersion { prefix } => {
                match find_prefixed_word(v.as_slice(), prefix) {
                    Some(w) => if is_valid_version(&w) { Some(w) } else { None },
                    None => None,
                }
            },
            Matcher::KeyValue { key } => find_by_key(v.as_slice(), key),
            Matcher::Between { start, end } => slice_string(v.as_slice(), start, end),
        }
    }
}

/// Returns the substring between the first occurrence of `start_char` and the next
/// occurrence of `end_char`.
fn slice_string(input: &[char], start_char: char, end_char: char) -> (r: Option<String>)
    ensures
        opt_view(r) == between_spec(input@, start_char, end_char),
{
    let a = find_char(input, start_char, 0);
    if a == input.len() {
        return None;
    }
    let b = find_char(input, end_char, a + 1);
    if b < input.len() {
        Some(string_of(slice_subrange(input, a + 1, b)))
    } else {
        Some(string_of(slice_subrange(input, a, input.len())))
    }
}

/// Finds the value for a given key in a key-value formatted text (lines separated by `\n`).
fn find_by_key(text: &[char], key: &str) -> (r: Option<String>)
    ensures
        opt_view(r) == key_value_spec(text@, key@),
{
    let mut pat = chars_of(key);
    pat.push('=');
    let pat = pat.as_slice();
    let n = text.len();
    let mut i: usize = 0;
    loop
        invariant
            i <= n == text@.len(),
            pat@ == key@.push('='),
            key_from(text@, pat@, i as int) == key_from(text@, pat@, 0),
        decreases n - i,
    {
        let e = find_char(text, '\n', i);
        if matches_at(text, pat, i) && i + pat.len() <= e {
            let line = slice_subrange(text, i + pat.len(), e);
            let (a, b) = trim_bounds(line, true);
            return Some(string_of(slice_subrange(line, a, b)));
        }
        if e == n {
            return None;
        }
        i = e + 1;
    }
}

/// Finds the word immediately following a given prefix in the input text.
fn find_prefixed_word(text: &[char], prefix: &str) -> (r: Option<String>)
    ensures
        opt_view(r) == prefixed_word_spec(text@, prefix@),
{
    let p = chars_of(prefix);
    let n = text.len();
    match find_seq(text, p.as_slice()) {
        None => None,
        Some(at) => {
            assert(at + p@.len() <= n);
            let a = skip_forward(text, false, true, at + p.len());
            let b = skip_forward(text, false, false, a);
            Some(string_of(slice_subrange(text, a, b)))
        },
    }
}

/// Checks if a word is a valid version (does not start or end with a dot).
fn is_valid_version(word: &String) -> (r: bool)
    ensures
        r == is_valid_version_spec(word@),
{
    let w = chars_of(word.as_str());
    w.len() == 0 || (w[0] != '.' && w[w.len() - 1] != '.')
}

/// When the first `start` stands at `i` and the first `end` after it at `j`, `Between`
/// finds exactly the text strictly between them, which is empty when they are adjacent.
pub proof fn lemma_between_enclosed(s: Seq<char>, start: char, end: char, i: int, j: int)
    requires
        0 <= i < j < s.len(),
        s[i] == start,
        s[j] == end,
        forall|k: int| 0 <= k < i ==> s[k] != start,
        forall|k: int| i < k < j ==> s[k] != end,
    ensures
        (Matcher::Between { start, end }).spec_find(s) == Some(s.subrange(i + 1, j)),
{
    lemma_char_from_hit(s, start, 0, i);
    lemma_char_from_hit(s, end, i + 1, j);
}

/// When `start` first stands at `i` and no `end` follows it, `Between` finds the text from
/// that `start` (included) to the end.
pub proof fn lemma_between_unclosed(s: Seq<char>, start: char, end: char, i: int)
    requires
        0 <= i < s.len(),
        s[i] == start,
        forall|k: int| 0 <= k < i ==> s[k] != start,
        forall|k: int| i < k < s.len() ==> s[k] != end,
    ensures
        (Matcher::Between { start, end }).spec_find(s) == Some(s.subrange(i, s.len() as int)),
{
    lemma_char_from_hit(s, start, 0, i);
    lemma_char_from_miss(s, end, i + 1);
}

/// Without a `start` in the text, `Between` finds nothing.
pub proof fn lemma_between_absent(s: Seq<char>, start: char, end: char)
    requires
        forall|k: int| 0 <= k < s.len() ==> s[k] != start,
    ensures
        (Matcher::Between { start, end }).spec_find(s) is None,
{
    lemma_char_from_miss(s, start, 0);
}

/// When the text's first line is `key=value`, the key-value lookup gives that value with
/// quotes and whitespace trimmed off, whatever the lines after it hold.
pub proof fn lemma_key_value_first_line(key: Seq<char>, value: Seq<char>, rest: Seq<char>)
    requires
        forall|k: int| 0 <= k < key.len() ==> key[k] != '\n',
        forall|k: int| 0 <= k < value.len() ==> value[k] != '\n',
    ensures
        key_value_spec(key + seq!['='] + value + seq!['\n'] + rest, key) == Some(
            trim_spec(value, true),
        ),
{
    let pat = key.push('=');
    let s = key + seq!['='] + value + seq!['\n'] + rest;
    let e = (pat.len() + value.len()) as int;
    assert(s.subrange(0, pat.len() as int) =~= pat);
    assert(s[e] == '\n');
    assert forall|k: int| 0 <= k < e implies s[k] != '\n' by {
        if k < key.len() {
            assert(s[k] == key[k]);
        } else if k > key.len() {
            assert(s[k] == value[k - pat.len()]);
        }
    }
    lemma_char_from_hit(s, '\n', 0, e);
    assert(s.subrange(pat.len() as int, e) =~= value);
}

/// Where `key=` stands nowhere in the text, the key-value lookup finds nothing.
pub proof fn lemma_key_value_absent(s: Seq<char>, key: Seq<char>)
    requires
        forall|i: int| !occurs_at(s, key.push('='), i),
    ensures
        key_value_spec(s, key) is None,
{
    lemma_key_from_absent(s, key.push('='), 0);
}

proof fn lemma_key_from_absent(s: Seq<char>, pat: Seq<char>, i: int)
    requires
        forall|k: int| !occurs_at(s, pat, k),
    ensures
        key_from(s, pat, i) is None,
    decreases s.len() + 1 - i,
{
    if 0 <= i <= s.len() {
        let e = char_from(s, '\n', i);
        assert(!occurs_at(s, pat, i));
        if i <= e < s.len() {
            lemma_key_from_absent(s, pat, e + 1);
        }
    }
}

} // verus!
