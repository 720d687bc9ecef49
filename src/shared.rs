//! Text primitives, the package relationship grammar and field lookup in a
//! control paragraph.

pub mod package_with_version;
pub mod search_paragraph;
pub mod text;
pub mod version_binding;

pub use package_with_version::PackageWithVersion;
pub use search_paragraph::{paragraph_contains, ControlField};
pub use version_binding::VersionBinding;
