//! The `OSInfo` record: what is known of an operating system's identity.
use vstd::prelude::*;
use vstd::string::StringExecFns;
use crate::text::opt_view;
use crate::version::{Version, VersionView};

verus! {

/// Represents information about an operating system, such as its ID, name, version,
/// variant, edition, and codename.
#[derive(Debug, Clone, PartialEq, Eq, PartialOrd, Ord, Hash)]
pub struct OSInfo {
    /// Operating system identification.
    pub id: Option<String>,
    /// Operating system name, as the user knows it.
    pub name: Option<String>,
    /// Operating system version.
    pub version: Version,
    /// Operating system variant, such as "server" or "client".
    pub variant: Option<String>,
    /// Operating system edition.
    pub edition: Option<String>,
    /// Operating system codename.
    pub codename: Option<String>,
}

/// The mathematical value of an [`OSInfo`].
pub struct OSInfoView {
    pub id: Option<Seq<char>>,
    pub name: Option<Seq<char>>,
    pub version: VersionView,
    pub variant: Option<Seq<char>>,
    pub edition: Option<Seq<char>>,
    pub codename: Option<Seq<char>>,
}

impl View for OSInfo {
    type V = OSInfoView;

    open spec fn view(&self) -> OSInfoView {
        OSInfoView {
            id: opt_view(self.id),
            name: opt_view(self.name),
            version: self.version@,
            variant: opt_view(self.variant),
            edition: opt_view(self.edition),
            codename: opt_view(self.codename),
        }
    }
}

/// The record of an operating system that could not be identified.
pub open spec fn unknown_spec() -> OSInfoView {
    OSInfoView {
        id: Some("Unknown"@),
        name: Some(Seq::empty()),
        version: VersionView::Unknown,
        variant: None,
        edition: None,
        codename: None,
    }
}

/// An optional field as text: empty when absent.
pub open spec fn text_or_empty(o: Option<Seq<char>>) -> Seq<char> {
    match o {
        Some(s) => s,
        None => Seq::empty(),
    }
}

/// ` (x)` for a present field, nothing for an absent one.
pub open spec fn in_parens(o: Option<Seq<char>>) -> Seq<char> {
    match o {
        Some(s) => " ("@ + s + ")"@,
        None => Seq::empty(),
    }
}

/// The one-line text of a record: its id, then its name and its variant in parentheses
/// when present.
pub open spec fn display_spec(v: OSInfoView) -> Seq<char> {
    text_or_empty(v.id) + in_parens(v.name) + in_parens(v.variant)
}

fn field_text(o: &Option<String>) -> (r: String)
    ensures
        r@ == text_or_empty(opt_view(*o)),
{
    match o {
        Some(s) => s.clone(),
        None => String::new(),
    }
}

fn copy_field(o: &Option<String>) -> (r: Option<String>)
    ensures
        opt_view(r) == opt_view(*o),
{
    match o {
        Some(s) => Some(s.clone()),
        None => None,
    }
}

fn append_in_parens(out: String, o: &Option<String>) -> (r: String)
    ensures
        r@ == out@ + in_parens(opt_view(*o)),
{
    match o {
        Some(s) => out.concat(" (").concat(s.as_str()).concat(")"),
        None => {
            assert(out@ + Seq::<char>::empty() =~= out@);
            out
        },
    }
}

impl Version {
    /// A copy of this version.
    pub(crate) fn duplicate(&self) -> (r: Version)
        ensures
            r@ == self@,
    {
        match self {
            Version::Unknown => Version::Unknown,
            Version::Semantic(a, b, c, d) => Version::Semantic(*a, *b, *c, *d),
            Version::Rolling(date) => Version::Rolling(copy_field(date)),
            Version::Custom(s) => Version::Custom(s.clone()),
        }
    }
}

impl Default for Version {
    fn default() -> (r: Version)
        ensures
            r@ == VersionView::Unknown,
    {
        Version::Unknown
    }
}

impl OSInfo {
    /// Constructs an `OSInfo` representing an unknown operating system: id `Unknown`, an
    /// empty name, an unknown version and no other field.
    pub fn unknown() -> (r: Self)
        ensures
            r@ == unknown_spec(),
    {
        OSInfo {
            id: Some(String::from_str("Unknown")),
            name: Some(String::new()),
            version: Version::Unknown,
            variant: None,
            edition: None,
            codename: None,
        }
    }

    /// Returns the operating system ID, or an empty string when it is not set.
    pub fn get_id(&self) -> (r: String)
        ensures
            r@ == text_or_empty(self@.id),
    {
        field_text(&self.id)
    }

    /// Returns the operating system name, or an empty string when it is not set.
    pub fn get_name(&self) -> (r: String)
        ensures
            r@ == text_or_empty(self@.name),
    {
        field_text(&self.name)
    }

    /// Returns the operating system version.
    pub fn get_version(&self) -> (r: Version)
        ensures
            r@ == self@.version,
    {
        self.version.duplicate()
    }

    /// Returns the operating system variant, or an empty string when it is not set.
    pub fn get_variant(&self) -> (r: String)
        ensures
            r@ == text_or_empty(self@.variant),
    {
        field_text(&self.variant)
    }

    /// Returns the operating system edition, or an empty string when it is not set.
    pub fn get_edition(&self) -> (r: String)
        ensures
            r@ == text_or_empty(self@.edition),
    {
        field_text(&self.edition)
    }

    /// Returns the operating system codename, or an empty string when it is not set.
    pub fn get_codename(&self) -> (r: String)
        ensures
            r@ == text_or_empty(self@.codename),
    {
        field_text(&self.codename)
    }

    /// Constructs an `OSInfo` with the given ID; every other field is as in
    /// [`OSInfo::unknown`].
    pub fn with_id(id: String) -> (r: Self)
        ensures
            r@ == (OSInfoView { id: Some(id@), ..unknown_spec() }),
    {
        OSInfo { id: Some(id), ..OSInfo::unknown() }
    }

    /// Constructs an `OSInfo` with the given name; every other field is as in
    /// [`OSInfo::unknown`].
    pub fn with_name(name: String) -> (r: Self)
        ensures
            r@ == (OSInfoView { name: Some(name@), ..unknown_spec() }),
    {
        OSInfo { name: Some(name), ..OSInfo::unknown() }
    }

    /// The one-line text of this record: the id, then the name and the variant in
    /// parentheses when they are set.
    pub fn to_string(&self) -> (r: String)
        ensures
            r@ == display_spec(self@),
    {
        let out = field_text(&self.id);
        let out = append_in_parens(out, &self.name);
        let out = append_in_parens(out, &self.variant);
        assert(out@ =~= display_spec(self@));
        out
    }
}

impl Default for OSInfo {
    fn default() -> (r: OSInfo)
        ensures
            r@ == unknown_spec(),
    {
        OSInfo::unknown()
    }
}

} // verus!
