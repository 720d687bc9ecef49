//! The values that queries on a package return.

use vstd::prelude::*;

use crate::shared::package_with_version::{references, PackageReference, PackageWithVersion};

verus! {

/// A file that the package installs: where it lies in the staging area and
/// where it would go under the install root.
#[derive(Debug, Clone, PartialEq, Eq)]
pub struct PathItem {
    pub real: String,
    /// `/` followed by the path relative to the data root.
    pub move_to: String,
}

/// The value of a [`PathItem`].
pub struct PathItemView {
    pub real: Seq<char>,
    pub move_to: Seq<char>,
}

impl View for PathItem {
    type V = PathItemView;

    open spec fn view(&self) -> PathItemView {
        PathItemView { real: self.real@, move_to: self.move_to@ }
    }
}

/// The package format version, from the `debian-binary` member.
#[allow(non_camel_case_types)]
#[derive(Debug, Clone, Copy, PartialEq, Eq, Structural)]
pub enum Version {
    V1_0,
    V2_0,
    VUnknown,
}

/// The package descriptor of a control file.
#[derive(Debug, Clone, PartialEq, Eq)]
pub struct Control {
    pub package: String,
    pub source: Option<String>,
    pub version: String,
    pub section: Option<String>,
    pub priority: Option<String>,
    pub architecture: String,
    pub essential: Option<String>,
    pub install_size: Option<u64>,
    pub maintainer: String,
    /// Continuation lines joined by single spaces.
    pub description: String,
    pub homepage: Option<String>,
    pub built_using: Option<String>,
    pub depends: Vec<PackageWithVersion>,
    pub pre_depends: Vec<PackageWithVersion>,
    pub recommends: Vec<PackageWithVersion>,
    pub suggests: Vec<PackageWithVersion>,
    pub enhances: Vec<PackageWithVersion>,
    pub breaks: Vec<PackageWithVersion>,
    pub conflicts: Vec<PackageWithVersion>,
}

/// The value of a [`Control`].
pub struct ControlView {
    pub package: Seq<char>,
    pub source: Option<Seq<char>>,
    pub version: Seq<char>,
    pub section: Option<Seq<char>>,
    pub priority: Option<Seq<char>>,
    pub architecture: Seq<char>,
    pub essential: Option<Seq<char>>,
    pub install_size: Option<u64>,
    pub maintainer: Seq<char>,
    pub description: Seq<char>,
    pub homepage: Option<Seq<char>>,
    pub built_using: Option<Seq<char>>,
    pub depends: Seq<PackageReference>,
    pub pre_depends: Seq<PackageReference>,
    pub recommends: Seq<PackageReference>,
    pub suggests: Seq<PackageReference>,
    pub enhances: Seq<PackageReference>,
    pub breaks: Seq<PackageReference>,
    pub conflicts: Seq<PackageReference>,
}

/// The value of an optional string.
pub open spec fn opt_view(o: Option<String>) -> Option<Seq<char>> {
    match o {
        Some(s) => Some(s@),
        None => None,
    }
}

impl View for Control {
    type V = ControlView;

    open spec fn view(&self) -> ControlView {
        ControlView {
            package: self.package@,
            source: opt_view(self.source),
            version: self.version@,
            section: opt_view(self.section),
            priority: opt_view(self.priority),
            architecture: self.architecture@,
            essential: opt_view(self.essential),
            install_size: self.install_size,
            maintainer: self.maintainer@,
            description: self.description@,
            homepage: opt_view(self.homepage),
            built_using: opt_view(self.built_using),
            depends: references(self.depends@),
            pre_depends: references(self.pre_depends@),
            recommends: references(self.recommends@),
            suggests: references(self.suggests@),
            enhances: references(self.enhances@),
            breaks: references(self.breaks@),
            conflicts: references(self.conflicts@),
        }
    }
}

} // verus!
