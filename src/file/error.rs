//! Errors of the package handle and of the control record.

use vstd::prelude::*;

verus! {

/// A query on a package handle, named in the error raised when the handle is
/// not staged yet.
#[derive(Debug, Clone, Copy, PartialEq, Eq, Structural)]
pub enum Query {
    Version,
    RetrieveControl,
    InstallTree,
}

/// Why the staging collaborator could not unpack an archive.
#[derive(Debug, Clone, Copy, PartialEq, Eq, Structural)]
pub enum StagingError {
    /// The host operating system is not supported.
    UnsupportedPlatform,
    /// The staging directory could not be created.
    StagingDirectory,
    /// The archive does not exist.
    ArchiveNotFound,
    /// The file is not a valid outer `ar` container.
    InvalidArchive,
    /// The control or data member is missing from the archive.
    MissingMember,
    /// The control or data member could not be decompressed.
    CorruptMember,
}

/// Everything that can go wrong while inspecting a package.
#[derive(Debug, Clone, PartialEq, Eq)]
pub enum DebError {
    /// A query was made before the handle was staged.
    NotStaged(Query),
    /// Staging is not supported on this operating system.
    UnsupportedPlatform { archive: String },
    /// The archive could not be unpacked.
    ExtractionFailure { archive: String, cause: StagingError },
    /// A mandatory control field is absent.
    MissingMandatoryField(String),
    /// The control text is not a well-formed paragraph, holds none, or
    /// repeats a field name.
    MalformedControlFile,
    /// A typed control field holds a value of the wrong shape.
    InvalidFieldValue(String),
    /// A staged path could not be read.
    FilesystemError(String),
}

/// The value of a [`DebError`].
pub enum DebErrorView {
    NotStaged(Query),
    UnsupportedPlatform { archive: Seq<char> },
    ExtractionFailure { archive: Seq<char>, cause: StagingError },
    MissingMandatoryField(Seq<char>),
    MalformedControlFile,
    InvalidFieldValue(Seq<char>),
    FilesystemError(Seq<char>),
}

impl View for DebError {
    type V = DebErrorView;

    open spec fn view(&self) -> DebErrorView {
        match self {
            DebError::NotStaged(q) => DebErrorView::NotStaged(*q),
            DebError::UnsupportedPlatform { archive } => DebErrorView::UnsupportedPlatform {
                archive: archive@,
            },
            DebError::ExtractionFailure { archive, cause } => DebErrorView::ExtractionFailure {
                archive: archive@,
                cause: *cause,
            },
            DebError::MissingMandatoryField(n) => DebErrorView::MissingMandatoryField(n@),
            DebError::MalformedControlFile => DebErrorView::MalformedControlFile,
            DebError::InvalidFieldValue(n) => DebErrorView::InvalidFieldValue(n@),
            DebError::FilesystemError(p) => DebErrorView::FilesystemError(p@),
        }
    }
}

} // verus!
