//! Identification from the values of the Windows registry key
//! `SOFTWARE\Microsoft\Windows NT\CurrentVersion`.
use vstd::prelude::*;
use vstd::string::StringExecFns;
use crate::os_info::{unknown_spec, OSInfo, OSInfoView};
use crate::text::{chars_of, opt_view};
use crate::version::{parse_u32, parse_u32_spec, Version, VersionView};

verus! {

/// The values of the `CurrentVersion` key that identify the system; each is absent when
/// it could not be read.
pub struct CurrentVersion {
    /// `CurrentMajorVersionNumber`.
    pub major: Option<u32>,
    /// `CurrentMinorVersionNumber`.
    pub minor: Option<u32>,
    /// `CurrentBuildNumber`, a decimal string.
    pub build: Option<String>,
    /// `UBR`, the update build revision.
    pub ubr: Option<u32>,
    /// `ProductName`.
    pub product_name: Option<String>,
    /// `InstallationType`.
    pub installation_type: Option<String>,
    /// `EditionID`.
    pub edition_id: Option<String>,
    /// `DisplayVersion`, such as `22H2`.
    pub display_version: Option<String>,
}

pub open spec fn or_zero(o: Option<u32>) -> u32 {
    match o {
        Some(x) => x,
        None => 0,
    }
}

/// The build number: the decimal value of `CurrentBuildNumber`, `0` when it is absent or
/// not a number.
pub open spec fn build_spec(b: Option<Seq<char>>) -> u32 {
    match b {
        Some(s) => or_zero(parse_u32_spec(s)),
        None => 0,
    }
}

/// The version that the key's values give; a value that is missing counts as `0`.
pub open spec fn version_spec(c: CurrentVersion) -> VersionView {
    VersionView::Semantic(or_zero(c.major), or_zero(c.minor), build_spec(opt_view(c.build)), or_zero(c.ubr))
}

/// The record of a Windows system: id `windows`; when the key could be read, its version
/// and its product name, installation type, edition and display version; otherwise the
/// fields of the unknown record.
pub open spec fn windows_spec(current: Option<CurrentVersion>) -> OSInfoView {
    match current {
        Some(c) => OSInfoView {
            id: Some("windows"@),
            name: opt_view(c.product_name),
            version: version_spec(c),
            variant: opt_view(c.installation_type),
            edition: opt_view(c.edition_id),
            codename: opt_view(c.display_version),
        },
        None => OSInfoView { id: Some("windows"@), ..unknown_spec() },
    }
}

/// The version that the key's values give.
pub fn get_version(current: &CurrentVersion) -> (r: Version)
    ensures
        r@ == version_spec(*current),
{
    let build = match &current.build {
        Some(s) => {
            let digits = chars_of(s.as_str());
            match parse_u32(digits.as_slice()) {
                Some(b) => b,
                None => 0,
            }
        },
        None => 0,
    };
    let major = match current.major {
        Some(x) => x,
        None => 0,
    };
    let minor = match current.minor {
        Some(x) => x,
        None => 0,
    };
    let ubr = match current.ubr {
        Some(x) => x,
        None => 0,
    };
    Version::Semantic(major, minor, build, ubr)
}

/// The record that the `CurrentVersion` key gives, or `None` in place of the key when it
/// could not be opened.
pub fn get_info(current: Option<CurrentVersion>) -> (r: OSInfo)
    ensures
        r@ == windows_spec(current),
{
    let mut info = OSInfo { id: Some(String::from_str("windows")), ..OSInfo::unknown() };
    match current {
        Some(c) => {
            info.version = get_version(&c);
            info.name = c.product_name;
            info.variant = c.installation_type;
            info.edition = c.edition_id;
            info.codename = c.display_version;
        },
        None => {},
    }
    info
}

} // verus!
