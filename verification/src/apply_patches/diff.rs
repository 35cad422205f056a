//! The structured diff of a patch message, as `git2` parses it, and the
//! application of one file's patch, as `diffy` performs it.
use git2::{Delta, Diff, Patch};
use vstd::prelude::*;

verus! {

/// `git2::Diff`, a list of file-level changes.
#[verifier::external_type_specification]
#[verifier::external_body]
pub struct ExDiff<'repo>(Diff<'repo>);

/// `git2::Error`, what libgit2 reports.
#[verifier::external_type_specification]
#[verifier::external_body]
pub struct ExGitError(git2::Error);

/// `diffy::ParsePatchError`: a text is no unified diff.
#[verifier::external_type_specification]
#[verifier::external_body]
pub struct ExParsePatchError(diffy::ParsePatchError);

/// `diffy::ApplyError`: a hunk found no place in the text.
#[verifier::external_type_specification]
#[verifier::external_body]
pub struct ExApplyError(diffy::ApplyError);

/// What a delta does to a file.
#[derive(Debug, Clone, Copy, PartialEq, Eq, Structural)]
pub enum DeltaStatus {
    Unmodified,
    Added,
    Deleted,
    Modified,
    Renamed,
    Copied,
    Ignored,
    Untracked,
    Typechange,
    Unreadable,
    Conflicted,
}

/// One side of a delta, as the diff gives it.
pub struct RawFile {
    /// The file's path, as bytes.
    pub path: Option<Vec<u8>>,
    /// Whether the file counts as binary.
    pub binary: bool,
}

/// One side of a delta.
pub struct FileRecord {
    pub path: Option<Seq<u8>>,
    pub binary: bool,
}

impl View for RawFile {
    type V = FileRecord;

    open spec fn view(&self) -> FileRecord {
        FileRecord {
            path: match self.path {
                Some(p) => Some(p@),
                None => None,
            },
            binary: self.binary,
        }
    }
}

/// The patch of one file, as text.
pub enum PatchRecord {
    /// The unified diff of the file.
    Text(Seq<u8>),
    /// The diff has no text for the file: it is binary or unchanged.
    Absent,
    /// The text could not be had.
    Failed,
}

impl PatchRecord {
    /// The text of the patch, where there is one.
    pub open spec fn text(self) -> Option<Seq<u8>> {
        match self {
            PatchRecord::Text(t) => Some(t),
            _ => None,
        }
    }
}

/// One file-level change of a diff.
pub struct DeltaRecord {
    pub status: DeltaStatus,
    pub old_file: FileRecord,
    pub new_file: FileRecord,
    pub patch: PatchRecord,
}

/// The deltas that a diff holds, in its order.
pub uninterp spec fn diff_records(diff: Diff<'static>) -> Seq<DeltaRecord>;

/// The deltas of the diff that `buffer` spells, where it spells one.
pub uninterp spec fn buffer_records(buffer: Seq<u8>) -> Option<Seq<DeltaRecord>>;

/// Calls `Diff::from_buffer`, which parses the text of a patch file into a
/// diff. Whether it succeeds, and what the diff then holds, depends on the
/// text alone.
#[verifier::external_body]
pub(crate) fn diff_from_buffer(buffer: &[u8]) -> (r: Result<Diff<'static>, git2::Error>)
    ensures
        r is Ok <==> buffer_records(buffer@) is Some,
        r matches Ok(diff) ==> Some(diff_records(diff)) == buffer_records(buffer@),
{
    Diff::from_buffer(buffer)
}

/// Calls `Diff::deltas` and takes the length of the iterator, which is the
/// number of deltas.
#[verifier::external_body]
pub(crate) fn diff_len(diff: &Diff<'static>) -> (n: usize)
    ensures
        n == diff_records(*diff).len(),
{
    diff.deltas().len()
}

/// Calls `Diff::get_delta` and `DiffDelta::status`. Past the last delta
/// there is none to ask, which the precondition excludes.
#[verifier::external_body]
pub(crate) fn delta_status(diff: &Diff<'static>, index: usize) -> (r: DeltaStatus)
    requires
        index < diff_records(*diff).len(),
    ensures
        r == diff_records(*diff)[index as int].status,
{
    match diff.get_delta(index).unwrap().status() {
        Delta::Unmodified => DeltaStatus::Unmodified,
        Delta::Added => DeltaStatus::Added,
        Delta::Deleted => DeltaStatus::Deleted,
        Delta::Modified => DeltaStatus::Modified,
        Delta::Renamed => DeltaStatus::Renamed,
        Delta::Copied => DeltaStatus::Copied,
        Delta::Ignored => DeltaStatus::Ignored,
        Delta::Untracked => DeltaStatus::Untracked,
        Delta::Typechange => DeltaStatus::Typechange,
        Delta::Unreadable => DeltaStatus::Unreadable,
        Delta::Conflicted => DeltaStatus::Conflicted,
    }
}

/// Calls `Diff::get_delta`, then `DiffDelta::old_file` and
/// `DiffDelta::new_file`, and reads `path_bytes` and `is_binary` of either
/// file. The result holds the old side first.
#[verifier::external_body]
pub(crate) fn delta_files(diff: &Diff<'static>, index: usize) -> (r: (RawFile, RawFile))
    requires
        index < diff_records(*diff).len(),
    ensures
        r.0@ == diff_records(*diff)[index as int].old_file,
        r.1@ == diff_records(*diff)[index as int].new_file,
{
    let delta = diff.get_delta(index).unwrap();
    let (old, new) = (delta.old_file(), delta.new_file());
    (
        RawFile { path: old.path_bytes().map(|p| p.to_vec()), binary: old.is_binary() },
        RawFile { path: new.path_bytes().map(|p| p.to_vec()), binary: new.is_binary() },
    )
}

/// Calls `Patch::from_diff`, which gives the patch of one file or none for
/// a binary or unchanged file, and `Patch::to_buf`, which renders it as
/// text.
#[verifier::external_body]
pub(crate) fn delta_patch(diff: &Diff<'static>, index: usize) -> (r: Result<
    Option<Vec<u8>>,
    git2::Error,
>)
    requires
        index < diff_records(*diff).len(),
    ensures
        match r {
            Ok(Some(text)) => diff_records(*diff)[index as int].patch == PatchRecord::Text(text@),
            Ok(None) => diff_records(*diff)[index as int].patch == PatchRecord::Absent,
            Err(_) => diff_records(*diff)[index as int].patch == PatchRecord::Failed,
        },
{
    match Patch::from_diff(diff, index)? {
        Some(mut patch) => Ok(Some(patch.to_buf()?.to_vec())),
        None => Ok(None),
    }
}

/// Whether `patch` is a unified diff that `diffy` can read.
pub uninterp spec fn is_unified_diff(patch: Seq<u8>) -> bool;

/// The text that the unified diff `patch` makes of `base`, where its
/// hunks find their place in it.
pub uninterp spec fn patched_text(base: Seq<u8>, patch: Seq<u8>) -> Option<Seq<u8>>;

/// What came of applying a patch.
pub enum Patched {
    /// The patched text.
    Text(Vec<u8>),
    /// The patch is no unified diff.
    NoPatch(diffy::ParsePatchError),
    /// A hunk found no place in the text.
    NoPlace(diffy::ApplyError),
}

/// Calls `diffy::Patch::from_bytes`, which parses a unified diff, and
/// `diffy::apply_bytes` on what it gives. The latter looks for each hunk
/// where its context and removed lines match, starting at the line the hunk
/// names and moving away from it in both directions.
#[verifier::external_body]
pub(crate) fn apply_unified_diff(base: &[u8], patch: &[u8]) -> (r: Patched)
    ensures
        match r {
            Patched::Text(text) => is_unified_diff(patch@) && patched_text(base@, patch@)
                == Some(text@),
            Patched::NoPatch(_) => !is_unified_diff(patch@),
            Patched::NoPlace(_) => is_unified_diff(patch@) && patched_text(base@, patch@)
                is None,
        },
{
    match diffy::Patch::from_bytes(patch) {
        Err(e) => Patched::NoPatch(e),
        Ok(parsed) => match diffy::apply_bytes(base, &parsed) {
            Ok(text) => Patched::Text(text),
            Err(e) => Patched::NoPlace(e),
        },
    }
}

} // verus!
