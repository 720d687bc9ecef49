//! The package handle: one archive, staged once, then queried.

use vstd::prelude::*;

use crate::file::control::{
    control_of_paragraphs, control_paragraphs, control_result, parse_control,
};
use crate::file::data_types::{Control, PathItem, Version};
use crate::file::error::{DebError, DebErrorView, Query, StagingError};
use crate::file::install::{build_install_tree, entry_views, is_install_tree, path_items, DataEntry};
use crate::shared::text::chars_of;

verus! {

/// The format version that the content of a `debian-binary` member names:
/// exactly `"1.0\n"` or `"2.0\n"`, anything else being unknown.
pub open spec fn version_of(content: Seq<char>) -> Version {
    if content == seq!['1', '.', '0', '\n'] {
        Version::V1_0
    } else if content == seq!['2', '.', '0', '\n'] {
        Version::V2_0
    } else {
        Version::VUnknown
    }
}

/// Whether `cs` is exactly `d`, `'.'`, `'0'`, `'\n'`.
fn is_version_text(cs: &Vec<char>, d: char) -> (r: bool)
    ensures
        r == (cs@ == seq![d, '.', '0', '\n']),
{
    let ghost t = seq![d, '.', '0', '\n'];
    assert(t.len() == 4 && t[0] == d && t[1] == '.' && t[2] == '0' && t[3] == '\n');
    if cs.len() != 4 {
        return false;
    }
    if cs[0] == d && cs[1] == '.' && cs[2] == '0' && cs[3] == '\n' {
        assert(cs@ =~= t);
        true
    } else {
        assert(cs@ != t);
        false
    }
}

/// The format version named by the content of a `debian-binary` member.
pub fn format_version(content: &str) -> (r: Version)
    ensures
        r == version_of(content@),
{
    let cs = chars_of(content);
    if is_version_text(&cs, '1') {
        Version::V1_0
    } else if is_version_text(&cs, '2') {
        Version::V2_0
    } else {
        Version::VUnknown
    }
}

/// The member of the staging directory that a query reads.
pub open spec fn member_of(query: Query) -> Seq<char> {
    match query {
        Query::Version => "debian-binary"@,
        Query::RetrieveControl => "control/control"@,
        Query::InstallTree => "data/"@,
    }
}

/// The error that a failed staging of `archive` raises.
pub open spec fn staging_failure(archive: Seq<char>, cause: StagingError) -> DebErrorView {
    match cause {
        StagingError::UnsupportedPlatform => DebErrorView::UnsupportedPlatform { archive },
        _ => DebErrorView::ExtractionFailure { archive, cause },
    }
}

/// A `.deb` archive, identified by its path, and the directory it was staged
/// into, once it is.
///
/// Staging unpacks the archive into a directory that holds the
/// `debian-binary` member, a `control/` tree and a `data/` tree; the
/// directory path ends with `/`. Every query needs a staged handle and fails
/// with [`DebError::NotStaged`] otherwise. Staging again replaces the
/// recorded directory; the earlier one is left on disk.
#[derive(Debug, Clone, PartialEq, Eq)]
pub struct Deb {
    pub path: &'static str,
    pub extracted_path: Option<String>,
}

impl Deb {
    /// An unstaged handle for the archive at `path`.
    pub fn new(path: &'static str) -> (r: Deb)
        ensures
            r.path == path,
            r.extracted_path is None,
    {
        Deb { path, extracted_path: None }
    }

    /// Records the outcome of staging the archive: the staging directory on
    /// success; on failure the handle is left as it was and the error names
    /// the archive.
    pub fn extract(&mut self, staged: Result<String, StagingError>) -> (r: Result<(), DebError>)
        ensures
            final(self).path == old(self).path,
            match staged {
                Ok(dir) => r is Ok && final(self).extracted_path == Some(dir),
                Err(cause) => r is Err && r->Err_0@ == staging_failure(old(self).path@, cause)
                    && final(self).extracted_path == old(self).extracted_path,
            },
    {
        match staged {
            Ok(dir) => {
                self.extracted_path = Some(dir);
                Ok(())
            },
            Err(StagingError::UnsupportedPlatform) => Err(
                DebError::UnsupportedPlatform { archive: self.path.to_owned() },
            ),
            Err(cause) => Err(DebError::ExtractionFailure { archive: self.path.to_owned(), cause }),
        }
    }

    /// Fails, naming `query`, unless the handle is staged.
    pub fn extract_check(&self, query: Query) -> (r: Result<(), DebError>)
        ensures
            match self.extracted_path {
                Some(_) => r is Ok,
                None => r is Err && r->Err_0@ == DebErrorView::NotStaged(query),
            },
    {
        match &self.extracted_path {
            Some(_) => Ok(()),
            None => Err(DebError::NotStaged(query)),
        }
    }

    /// The staged path that `query` reads: the `debian-binary` member, the
    /// `control/control` file or the `data/` root. No path is given for an
    /// unstaged handle, so that nothing is read before staging.
    pub fn staged_path(&self, query: Query) -> (r: Result<String, DebError>)
        ensures
            match self.extracted_path {
                Some(dir) => r is Ok && r->Ok_0@ == dir@ + member_of(query),
                None => r is Err && r->Err_0@ == DebErrorView::NotStaged(query),
            },
    {
        match &self.extracted_path {
            Some(dir) => {
                let member = match query {
                    Query::Version => "debian-binary",
                    Query::RetrieveControl => "control/control",
                    Query::InstallTree => "data/",
                };
                let mut p = dir.clone();
                p.append(member);
                Ok(p)
            },
            None => Err(DebError::NotStaged(query)),
        }
    }

    /// The format version, given the content of the staged `debian-binary`
    /// member.
    pub fn version(&self, debian_binary: &str) -> (r: Result<Version, DebError>)
        ensures
            match self.extracted_path {
                Some(_) => r == Ok::<Version, DebError>(version_of(debian_binary@)),
                None => r is Err && r->Err_0@ == DebErrorView::NotStaged(Query::Version),
            },
    {
        match self.extract_check(Query::Version) {
            Ok(()) => Ok(format_version(debian_binary)),
            Err(e) => Err(e),
        }
    }

    /// The control record, given the text of the staged `control/control`
    /// file.
    pub fn retrieve_control(&self, control_text: &str) -> (r: Result<Control, DebError>)
        ensures
            match self.extracted_path {
                Some(_) => control_result(r) == control_of_paragraphs(
                    control_paragraphs(control_text@),
                ),
                None => r is Err && r->Err_0@ == DebErrorView::NotStaged(Query::RetrieveControl),
            },
    {
        match self.extract_check(Query::RetrieveControl) {
            Ok(()) => parse_control(control_text),
            Err(e) => Err(e),
        }
    }

    /// The install tree, given the entries found beneath the staged `data/`
    /// root (none when it does not exist).
    pub fn install_tree(&self, entries: &Vec<DataEntry>) -> (r: Result<Vec<PathItem>, DebError>)
        ensures
            match self.extracted_path {
                Some(dir) => r is Ok && is_install_tree(
                    dir@ + "data/"@,
                    entry_views(entries@),
                    path_items(r->Ok_0@),
                ),
                None => r is Err && r->Err_0@ == DebErrorView::NotStaged(Query::InstallTree),
            },
    {
        match self.staged_path(Query::InstallTree) {
            Ok(root) => Ok(build_install_tree(root.as_str(), entries)),
            Err(e) => Err(e),
        }
    }
}

} // verus!
