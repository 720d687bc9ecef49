//! Where the staging of an archive puts its members.
//!
//! Running `ar` and `tar` is left to the caller; this module decides the
//! layout of the staging directory.

use vstd::prelude::*;

verus! {

/// A character of a hyphenated, lower-case UUID.
pub open spec fn is_id_char(c: char) -> bool {
    c == '-' || ('0' <= c && c <= '9') || ('a' <= c && c <= 'f')
}

/// Relies on `uuid::Uuid::new_v4` and the `Display` impl of `uuid::Uuid`,
/// which writes the hyphenated lower-case form: 36 hex digits and hyphens.
/// The value is random.
#[verifier::external_body]
fn random_id() -> (r: String)
    ensures
        r@.len() == 36,
        forall|i: int| 0 <= i < r@.len() ==> is_id_char(#[trigger] r@[i]),
{
    uuid::Uuid::new_v4().to_string()
}

/// The paths that staging one archive uses.
#[derive(Debug, Clone, PartialEq, Eq)]
pub struct StagingPaths {
    /// The staging directory, ending with `/`.
    pub output: String,
    /// The compressed data member, once the outer archive is unpacked.
    pub data_archive: String,
    /// The directory the data member unpacks into.
    pub data_extract: String,
    /// The compressed control member, once the outer archive is unpacked.
    pub control_archive: String,
    /// The directory the control member unpacks into.
    pub control_extract: String,
}

/// `p` is the layout of the staging directory `root`, `id`, `/`.
pub open spec fn is_layout(p: StagingPaths, root: Seq<char>, id: Seq<char>) -> bool {
    &&& p.output@ == root + id + "/"@
    &&& p.data_archive@ == p.output@ + "data.tar.xz"@
    &&& p.data_extract@ == p.output@ + "data/"@
    &&& p.control_archive@ == p.output@ + "control.tar.xz"@
    &&& p.control_extract@ == p.output@ + "control/"@
}

fn joined(base: &String, tail: &str) -> (r: String)
    ensures
        r@ == base@ + tail@,
{
    let mut r = base.clone();
    r.append(tail);
    r
}

impl StagingPaths {
    /// The layout of the staging directory `id` under `root` (which ends
    /// with `/`).
    pub fn under(root: &str, id: &str) -> (r: StagingPaths)
        ensures
            is_layout(r, root@, id@),
    {
        let mut output = root.to_owned();
        output.append(id);
        output.append("/");
        StagingPaths {
            data_archive: joined(&output, "data.tar.xz"),
            data_extract: joined(&output, "data/"),
            control_archive: joined(&output, "control.tar.xz"),
            control_extract: joined(&output, "control/"),
            output,
        }
    }

    /// The layout of a fresh staging directory under `root`, named by a
    /// random UUID so that stagings do not collide.
    pub fn fresh(root: &str) -> (r: StagingPaths)
        ensures
            exists|id: Seq<char>|
                id.len() == 36 && (forall|i: int| 0 <= i < id.len() ==> is_id_char(#[trigger] id[i]))
                    && is_layout(r, root@, id),
    {
        let id = random_id();
        StagingPaths::under(root, id.as_str())
    }
}

} // verus!
