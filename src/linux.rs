//! Identification from release files: a priority-ordered table of candidate files and
//! the rules that pull each field out of a file's text.
use vstd::prelude::*;
use crate::matcher::Matcher;
use crate::os_info::{unknown_spec, OSInfo, OSInfoView};
use crate::text::opt_view;
use crate::version::{from_string_spec, Version, VersionView};
use vstd::string::StringExecFns;

verus! {

/// How one field of the record is taken from a release file's text.
#[derive(Debug, Clone, Copy)]
pub enum FieldRule {
    /// What the matcher finds.
    Find(Matcher),
    /// What the matcher finds, or the fixed text when it finds nothing.
    FindOr(Matcher, &'static str),
    /// What the first matcher finds; when it finds nothing, what the third finds in what
    /// the second one found.
    FindOrWithin(Matcher, Matcher, Matcher),
}

impl FieldRule {
    /// What `apply` returns on text `s`.
    pub open spec fn spec_apply(&self, s: Seq<char>) -> Option<Seq<char>> {
        match *self {
            FieldRule::Find(m) => m.spec_find(s),
            FieldRule::FindOr(m, fallback) => match m.spec_find(s) {
                Some(x) => Some(x),
                None => Some(fallback@),
            },
            FieldRule::FindOrWithin(m, outer, inner) => match m.spec_find(s) {
                Some(x) => Some(x),
                None => match outer.spec_find(s) {
                    Some(y) => inner.spec_find(y),
                    None => None,
                },
            },
        }
    }

    /// The field that this rule takes from `text`, if any.
    pub fn apply(&self, text: &str) -> (r: Option<String>)
        ensures
            opt_view(r) == self.spec_apply(text@),
    {
        match self {
            FieldRule::Find(m) => m.find(text),
            FieldRule::FindOr(m, fallback) => match m.find(text) {
                Some(x) => Some(x),
                None => Some(String::from_str(*fallback)),
            },
            FieldRule::FindOrWithin(m, outer, inner) => match m.find(text) {
                Some(x) => Some(x),
                None => match outer.find(text) {
                    Some(y) => inner.find(y.as_str()),
                    None => None,
                },
            },
        }
    }
}

/// Where a release file lies, and how to parse distribution info from it.
#[derive(Debug, Clone, Copy)]
pub struct ReleaseInfo {
    /// Path of the release file, relative to the root of the file system.
    pub path: &'static str,
    /// Determines the os id.
    pub id: FieldRule,
    /// Determines the os name.
    pub name: FieldRule,
    /// Determines the raw os version, which [`Version::from_string`] then classifies.
    pub version: FieldRule,
    /// Determines the os variant.
    pub variant: FieldRule,
    /// Determines the os codename.
    pub codename: FieldRule,
}

/// The `os-release` format, which most modern distributions have.
pub open spec fn os_release_spec() -> ReleaseInfo {
    ReleaseInfo {
        path: "etc/os-release",
        id: FieldRule::Find(Matcher::KeyValue { key: "ID" }),
        name: FieldRule::Find(Matcher::KeyValue { key: "NAME" }),
        version: FieldRule::Find(Matcher::KeyValue { key: "VERSION_ID" }),
        variant: FieldRule::FindOr(Matcher::KeyValue { key: "VARIANT_ID" }, "client"),
        codename: FieldRule::FindOrWithin(
            Matcher::KeyValue { key: "VERSION_CODENAME" },
            Matcher::KeyValue { key: "VERSION" },
            Matcher::Between { start: '(', end: ')' },
        ),
    }
}

/// The supported release files, most common first.
pub fn distributions() -> (r: Vec<ReleaseInfo>)
    ensures
        r@ == seq![os_release_spec()],
{
    let os_release = ReleaseInfo {
        path: "etc/os-release",
        id: FieldRule::Find(Matcher::KeyValue { key: "ID" }),
        name: FieldRule::Find(Matcher::KeyValue { key: "NAME" }),
        version: FieldRule::Find(Matcher::KeyValue { key: "VERSION_ID" }),
        variant: FieldRule::FindOr(Matcher::KeyValue { key: "VARIANT_ID" }, "client"),
        codename: FieldRule::FindOrWithin(
            Matcher::KeyValue { key: "VERSION_CODENAME" },
            Matcher::KeyValue { key: "VERSION" },
            Matcher::Between { start: '(', end: ')' },
        ),
    };
    let r = vec![os_release];
    assert(r@ =~= seq![os_release_spec()]);
    r
}

/// The record that candidate `d` gives for release-file text `t`.
pub open spec fn record_spec(d: ReleaseInfo, t: Seq<char>) -> OSInfoView {
    OSInfoView {
        id: d.id.spec_apply(t),
        name: d.name.spec_apply(t),
        version: match d.version.spec_apply(t) {
            Some(v) => from_string_spec(v),
            None => VersionView::Unknown,
        },
        variant: d.variant.spec_apply(t),
        edition: None,
        codename: d.codename.spec_apply(t),
    }
}

/// The text of candidate `i`'s file, if it could be read.
pub open spec fn text_at(texts: Seq<Option<String>>, i: int) -> Option<Seq<char>> {
    if 0 <= i < texts.len() {
        opt_view(texts[i])
    } else {
        None
    }
}

/// Candidate `d` identifies the system from its file's text `t`: its id rule finds an id.
pub open spec fn identifies(d: ReleaseInfo, t: Option<Seq<char>>) -> bool {
    match t {
        Some(t) => d.id.spec_apply(t) is Some,
        None => false,
    }
}

/// The record of the first candidate from `i` on whose file was read and identifies the
/// system; nothing when there is none.
pub open spec fn resolve_from(ds: Seq<ReleaseInfo>, texts: Seq<Option<String>>, i: int) -> Option<
    OSInfoView,
>
    decreases ds.len() - i,
{
    if i < 0 || i >= ds.len() {
        None
    } else if identifies(ds[i], text_at(texts, i)) {
        Some(record_spec(ds[i], text_at(texts, i)->Some_0))
    } else {
        resolve_from(ds, texts, i + 1)
    }
}

pub open spec fn opt_info_view(o: Option<OSInfo>) -> Option<OSInfoView> {
    match o {
        Some(x) => Some(x@),
        None => None,
    }
}

/// The record that candidate `d` gives for `text`, when its id rule finds an id.
fn identify(d: &ReleaseInfo, text: &str) -> (r: Option<OSInfo>)
    ensures
        opt_info_view(r) == (if identifies(*d, Some(text@)) {
            Some(record_spec(*d, text@))
        } else {
            None
        }),
{
    let id = d.id.apply(text);
    if id.is_none() {
        return None;
    }
    let name = d.name.apply(text);
    let variant = d.variant.apply(text);
    let version = match d.version.apply(text) {
        Some(v) => Version::from_string(v.as_str()),
        None => Version::Unknown,
    };
    let codename = d.codename.apply(text);
    Some(OSInfo { id, name, version, variant, edition: None, codename })
}

/// Tries the candidates in order and returns the record of the first one whose file was
/// read (`contents[i]` holds the text of `distributions[i]`'s file) and whose id rule
/// finds an id. Later candidates are not looked at, and no fields are merged.
pub fn retrieve(distributions: &Vec<ReleaseInfo>, contents: &Vec<Option<String>>) -> (r: Option<
    OSInfo,
>)
    ensures
        opt_info_view(r) == resolve_from(distributions@, contents@, 0),
{
    let mut i: usize = 0;
    while i < distributions.len()
        invariant
            i <= distributions@.len(),
            resolve_from(distributions@, contents@, i as int) == resolve_from(
                distributions@,
                contents@,
                0,
            ),
        decreases distributions@.len() - i,
    {
        if i < contents.len() {
            match &contents[i] {
                Some(text) => {
                    let found = identify(&distributions[i], text.as_str());
                    if found.is_some() {
                        return found;
                    }
                },
                None => {},
            }
        }
        i = i + 1;
    }
    None
}

/// The record that the release files give: `contents[i]` holds the text of the file of
/// entry `i` of [`distributions`], or nothing when that file is missing or unreadable.
pub fn get_os_data(contents: &Vec<Option<String>>) -> (r: Option<OSInfo>)
    ensures
        opt_info_view(r) == resolve_from(seq![os_release_spec()], contents@, 0),
{
    retrieve(&distributions(), contents)
}

/// Like [`get_os_data`], with the unknown record when no candidate identifies the system.
pub fn get_info(contents: &Vec<Option<String>>) -> (r: OSInfo)
    ensures
        r@ == match resolve_from(seq![os_release_spec()], contents@, 0) {
            Some(v) => v,
            None => unknown_spec(),
        },
{
    match get_os_data(contents) {
        Some(info) => info,
        None => OSInfo::unknown(),
    }
}

/// When the first candidate's file was read but its id rule finds nothing, and the second
/// candidate identifies the system, the result is exactly the second candidate's record.
pub proof fn lemma_resolve_falls_through(ds: Seq<ReleaseInfo>, texts: Seq<Option<String>>)
    requires
        ds.len() >= 2,
        text_at(texts, 0) is Some,
        !identifies(ds[0], text_at(texts, 0)),
        identifies(ds[1], text_at(texts, 1)),
    ensures
        resolve_from(ds, texts, 0) == Some(record_spec(ds[1], text_at(texts, 1)->Some_0)),
{
    assert(resolve_from(ds, texts, 0) == resolve_from(ds, texts, 1));
}

/// When no candidate identifies the system, there is no result.
pub proof fn lemma_resolve_none(ds: Seq<ReleaseInfo>, texts: Seq<Option<String>>)
    requires
        forall|i: int| 0 <= i < ds.len() ==> !identifies(#[trigger] ds[i], text_at(texts, i)),
    ensures
        resolve_from(ds, texts, 0) is None,
{
    lemma_resolve_none_from(ds, texts, 0);
}

proof fn lemma_resolve_none_from(ds: Seq<ReleaseInfo>, texts: Seq<Option<String>>, i: int)
    requires
        forall|k: int| 0 <= k < ds.len() ==> !identifies(#[trigger] ds[k], text_at(texts, k)),
    ensures
        resolve_from(ds, texts, i) is None,
    decreases ds.len() - i,
{
    if 0 <= i < ds.len() {
        lemma_resolve_none_from(ds, texts, i + 1);
    }
}

/// When the first candidate identifies the system, its record is the result, whatever the
/// later candidates and their files are: they are never consulted.
pub proof fn lemma_resolve_first_wins(
    ds: Seq<ReleaseInfo>,
    texts: Seq<Option<String>>,
    other_ds: Seq<ReleaseInfo>,
    other_texts: Seq<Option<String>>,
)
    requires
        ds.len() >= 1,
        identifies(ds[0], text_at(texts, 0)),
        other_ds.len() >= 1,
        other_ds[0] == ds[0],
        text_at(other_texts, 0) == text_at(texts, 0),
    ensures
        resolve_from(ds, texts, 0) == Some(record_spec(ds[0], text_at(texts, 0)->Some_0)),
        resolve_from(other_ds, other_texts, 0) == resolve_from(ds, texts, 0),
{
}

} // verus!
