//! Operating-system identity extraction: text matchers, version normalisation and
//! table-driven resolution of release descriptors into an [`OSInfo`] record.
pub mod text;
pub mod matcher;
pub mod version;
pub mod os_info;
pub mod linux;
pub mod windows;

pub use crate::matcher::Matcher;
pub use crate::os_info::OSInfo;
pub use crate::version::Version;
