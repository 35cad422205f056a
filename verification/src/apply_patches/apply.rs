//! Applying a patch message: each delta becomes an edit of the tree, or the
//! whole application fails.
//!
//! The engine never touches a repository. It asks its caller for the blobs
//! it needs, one at a time, and in the end hands over the edits from which
//! the caller builds the new tree.
use crate::apply_patches::diff::{
    apply_unified_diff, delta_files, delta_patch, delta_status, is_unified_diff, patched_text,
    DeltaRecord, DeltaStatus, FileRecord, PatchRecord, Patched, RawFile,
};
use crate::apply_patches::email::EmailMessage;
use crate::text::{str_chars, string_from_utf8, string_of};
use camino::Utf8Path;
use vstd::prelude::*;
use vstd::string::*;
use vstd::utf8::{decode_utf8, valid_utf8};

verus! {

/// A path of a delta is absolute.
#[derive(Debug, Clone)]
pub struct AbsolutePathError {
    pub path: String,
    /// Which side of the delta the path belongs to, once that is known.
    pub role: Option<&'static str>,
}

/// Why a path of a delta cannot be used.
#[derive(Debug)]
pub enum BadPathError {
    /// The path is absolute.
    AbsolutePath(AbsolutePathError),
    /// The path is not valid UTF-8.
    InvalidUtf8Path { path: Vec<u8> },
}

impl BadPathError {
    /// Notes in an `AbsolutePath` error which side of the delta it is
    /// about.
    pub fn set_role(&mut self, new_role: &'static str)
        ensures
            match *old(self) {
                BadPathError::AbsolutePath(e) => *final(self) == BadPathError::AbsolutePath(
                    AbsolutePathError { path: e.path, role: Some(new_role) },
                ),
                BadPathError::InvalidUtf8Path { .. } => *final(self) == *old(self),
            },
    {
        match self {
            BadPathError::AbsolutePath(e) => {
                e.role = Some(new_role);
            },
            BadPathError::InvalidUtf8Path { .. } => {},
        }
    }
}

/// One side of a delta: its path, which is relative, and whether the file
/// counts as binary.
#[derive(Debug, Clone)]
pub struct DeltaFileDesc {
    pub path: Option<String>,
    pub binary: bool,
}

/// The text of a path that may be missing.
pub open spec fn path_text(path: Option<String>) -> Option<Seq<char>> {
    match path {
        Some(p) => Some(p@),
        None => None,
    }
}

/// The text of the path `path`, where there is one and it is valid UTF-8.
pub open spec fn decoded_path(path: Option<Seq<u8>>) -> Option<Seq<char>> {
    match path {
        Some(p) => if valid_utf8(p) {
            Some(decode_utf8(p))
        } else {
            None
        },
        None => None,
    }
}

/// The path `path`, where there is one and it is not valid UTF-8.
pub open spec fn invalid_path(path: Option<Seq<u8>>) -> Option<Seq<u8>> {
    match path {
        Some(p) => if valid_utf8(p) {
            None
        } else {
            Some(p)
        },
        None => None,
    }
}

/// The error names the side `role` of its delta.
pub open spec fn role_is(e: AbsolutePathError, role: Seq<char>) -> bool {
    match e.role {
        Some(r) => r@ == role,
        None => false,
    }
}

/// What a bad path on one of the two sides `old` and `new` of a delta
/// comes to. The old side is looked at first.
pub open spec fn is_bad_path_of(e: BadPathError, old: FileRecord, new: FileRecord) -> bool {
    match e {
        BadPathError::AbsolutePath(e) => {
            ||| (role_is(e, "old_file"@) && decoded_path(old.path) == Some(e.path@))
            ||| (role_is(e, "new_file"@) && invalid_path(old.path) is None && decoded_path(
                new.path,
            ) == Some(e.path@))
        },
        BadPathError::InvalidUtf8Path { path } => {
            ||| invalid_path(old.path) == Some(path@)
            ||| (invalid_path(old.path) is None && invalid_path(new.path) == Some(path@))
        },
    }
}

/// Calls `Utf8Path::is_absolute`. What counts as absolute is the
/// platform's affair, so nothing is said of the answer.
#[verifier::external_body]
fn path_is_absolute(path: &str) -> (r: bool) {
    Utf8Path::new(path).is_absolute()
}

/// What the path of one side of a delta turned out to be.
#[derive(Debug)]
pub enum PathCheck {
    /// The side has no path.
    Missing,
    /// The path is not valid UTF-8.
    Invalid { path: Vec<u8> },
    /// The path is relative.
    Relative { path: String },
    /// The path is absolute.
    Absolute { path: String },
}

impl PathCheck {
    /// The check is one of the path `path`: it tells a missing path from
    /// one that is not valid UTF-8 and from one that is, and holds the text
    /// of the latter.
    pub open spec fn is_check_of(self, path: Option<Seq<u8>>) -> bool {
        match self {
            PathCheck::Missing => path is None,
            PathCheck::Invalid { path: bytes } => invalid_path(path) == Some(bytes@),
            PathCheck::Relative { path: text } => decoded_path(path) == Some(text@),
            PathCheck::Absolute { path: text } => decoded_path(path) == Some(text@),
        }
    }

    /// The text of a relative path.
    pub open spec fn relative(self) -> Option<Seq<char>> {
        match self {
            PathCheck::Relative { path } => Some(path@),
            _ => None,
        }
    }

    /// The side can be used: it has no path, or a relative one.
    pub open spec fn is_usable(self) -> bool {
        self is Missing || self is Relative
    }
}

/// The path `path` of one side of a delta, checked: decoded where it is
/// valid UTF-8, and then absolute where the platform takes it for that.
pub fn check_path(path: Option<Vec<u8>>) -> (r: PathCheck)
    ensures
        r.is_check_of(
            match path {
                Some(p) => Some(p@),
                None => None,
            },
        ),
{
    match path {
        None => PathCheck::Missing,
        Some(bytes) => match string_from_utf8(bytes) {
            Err(path) => PathCheck::Invalid { path },
            Ok(path) => if path_is_absolute(path.as_str()) {
                PathCheck::Absolute { path }
            } else {
                PathCheck::Relative { path }
            },
        },
    }
}

impl DeltaFileDesc {
    /// One side of a delta, from its checked path. Only a missing path and
    /// a relative one are accepted.
    pub fn from_check(check: PathCheck, binary: bool) -> (r: Result<Self, BadPathError>)
        ensures
            r is Ok <==> check.is_usable(),
            match r {
                Ok(file) => file.binary == binary && path_text(file.path) == check.relative(),
                Err(BadPathError::AbsolutePath(e)) => check == (PathCheck::Absolute {
                    path: e.path,
                }) && e.role is None,
                Err(BadPathError::InvalidUtf8Path { path }) => check == (PathCheck::Invalid {
                    path,
                }),
            },
    {
        match check {
            PathCheck::Missing => Ok(DeltaFileDesc { path: None, binary }),
            PathCheck::Relative { path } => Ok(DeltaFileDesc { path: Some(path), binary }),
            PathCheck::Absolute { path } => Err(
                BadPathError::AbsolutePath(AbsolutePathError { path, role: None }),
            ),
            PathCheck::Invalid { path } => Err(BadPathError::InvalidUtf8Path { path }),
        }
    }

    /// One side of a delta, from what the diff says of it. A path that is
    /// not valid UTF-8 is refused, and so is one that the platform takes
    /// for absolute.
    pub fn try_from(file: RawFile) -> (r: Result<Self, BadPathError>)
        ensures
            match r {
                Ok(desc) => describes_file(desc, file@),
                Err(BadPathError::AbsolutePath(e)) => e.role is None && decoded_path(file@.path)
                    == Some(e.path@),
                Err(BadPathError::InvalidUtf8Path { path }) => invalid_path(file@.path) == Some(
                    path@,
                ),
            },
    {
        let binary = file.binary;
        Self::from_check(check_path(file.path), binary)
    }
}

/// One delta: what it does, and to which files.
#[derive(Debug, Clone)]
pub struct DeltaDesc {
    /// The place of the delta in its diff, counted from zero.
    pub delta_index: Option<usize>,
    pub old_file: DeltaFileDesc,
    pub new_file: DeltaFileDesc,
    pub delta_status: DeltaStatus,
}

/// The statuses that change a file's content by a patch.
pub open spec fn is_patch_status(status: DeltaStatus) -> bool {
    status == DeltaStatus::Added || status == DeltaStatus::Modified || status
        == DeltaStatus::Renamed || status == DeltaStatus::Copied
}

/// The path that a delta with the status `status` has on its old side,
/// where the diff gives `path` for it: a file that is added has none.
pub open spec fn old_side(status: DeltaStatus, path: Option<Seq<char>>) -> Option<Seq<char>> {
    if status == DeltaStatus::Added {
        None
    } else {
        path
    }
}

/// The path that a delta with the status `status` has on its new side,
/// where the diff gives `path` for it: a file that is deleted has none.
pub open spec fn new_side(status: DeltaStatus, path: Option<Seq<char>>) -> Option<Seq<char>> {
    if status == DeltaStatus::Deleted {
        None
    } else {
        path
    }
}

/// `desc` describes the delta `rec`: its status, the binary flags, and the
/// paths of the sides that it has, decoded.
pub open spec fn describes(desc: DeltaDesc, rec: DeltaRecord) -> bool {
    &&& desc.delta_status == rec.status
    &&& desc.old_file.binary == rec.old_file.binary
    &&& desc.new_file.binary == rec.new_file.binary
    &&& invalid_path(rec.old_file.path) is None
    &&& invalid_path(rec.new_file.path) is None
    &&& path_text(desc.old_file.path) == old_side(rec.status, decoded_path(rec.old_file.path))
    &&& path_text(desc.new_file.path) == new_side(rec.status, decoded_path(rec.new_file.path))
}

/// `desc` describes the side `rec` of a delta.
pub open spec fn describes_file(desc: DeltaFileDesc, rec: FileRecord) -> bool {
    &&& desc.binary == rec.binary
    &&& match rec.path {
        Some(p) => valid_utf8(p) && path_text(desc.path) == Some(decode_utf8(p)),
        None => desc.path is None,
    }
}

impl DeltaDesc {
    /// The path of the file before the change.
    pub fn old_path(&self) -> (r: Option<&str>)
        ensures
            match r {
                Some(p) => path_text(self.old_file.path) == Some(p@),
                None => self.old_file.path is None,
            },
    {
        match &self.old_file.path {
            Some(p) => Some(p.as_str()),
            None => None,
        }
    }

    /// The path of the file after the change.
    pub fn new_path(&self) -> (r: Option<&str>)
        ensures
            match r {
                Some(p) => path_text(self.new_file.path) == Some(p@),
                None => self.new_file.path is None,
            },
    {
        match &self.new_file.path {
            Some(p) => Some(p.as_str()),
            None => None,
        }
    }

    /// A file that is added has no old path, and one that is deleted has no
    /// new one.
    pub open spec fn wf(&self) -> bool {
        &&& self.delta_status == DeltaStatus::Added ==> self.old_file.path is None
        &&& self.delta_status == DeltaStatus::Deleted ==> self.new_file.path is None
    }

    /// The description of the delta with the given status, from the checked
    /// paths of its sides.
    ///
    /// A side whose path is absolute or not valid UTF-8 is refused,
    /// whatever the status is, and the old side first. An absolute path is
    /// reported with the side it stands on. Of the paths that are left, a
    /// file that is added keeps none on its old side, and one that is
    /// deleted none on its new side, whatever the diff gives there.
    pub fn from_checks(
        index: Option<usize>,
        status: DeltaStatus,
        old: PathCheck,
        old_binary: bool,
        new: PathCheck,
        new_binary: bool,
    ) -> (r: Result<Self, BadPathError>)
        ensures
            r is Ok <==> old.is_usable() && new.is_usable(),
            match r {
                Ok(desc) => {
                    &&& desc.wf()
                    &&& desc.delta_index == index
                    &&& desc.delta_status == status
                    &&& desc.old_file.binary == old_binary
                    &&& desc.new_file.binary == new_binary
                    &&& path_text(desc.old_file.path) == old_side(status, old.relative())
                    &&& path_text(desc.new_file.path) == new_side(status, new.relative())
                },
                Err(BadPathError::AbsolutePath(e)) => if old.is_usable() {
                    new == (PathCheck::Absolute { path: e.path }) && role_is(e, "new_file"@)
                } else {
                    old == (PathCheck::Absolute { path: e.path }) && role_is(e, "old_file"@)
                },
                Err(BadPathError::InvalidUtf8Path { path }) => if old.is_usable() {
                    new == (PathCheck::Invalid { path })
                } else {
                    old == (PathCheck::Invalid { path })
                },
            },
    {
        let old_file = match DeltaFileDesc::from_check(old, old_binary) {
            Ok(file) => file,
            Err(e) => {
                let mut e = e;
                e.set_role("old_file");
                return Err(e);
            },
        };
        let new_file = match DeltaFileDesc::from_check(new, new_binary) {
            Ok(file) => file,
            Err(e) => {
                let mut e = e;
                e.set_role("new_file");
                return Err(e);
            },
        };
        let old_file = match status {
            DeltaStatus::Added => DeltaFileDesc { path: None, binary: old_file.binary },
            _ => old_file,
        };
        let new_file = match status {
            DeltaStatus::Deleted => DeltaFileDesc { path: None, binary: new_file.binary },
            _ => new_file,
        };
        Ok(DeltaDesc { old_file, new_file, delta_status: status, delta_index: index })
    }

    /// The description of the delta with the given status and sides, as the
    /// diff gives them.
    pub fn from_git(index: Option<usize>, status: DeltaStatus, old: RawFile, new: RawFile) -> (r:
        Result<Self, BadPathError>)
        ensures
            match r {
                Ok(desc) => {
                    &&& desc.wf()
                    &&& desc.delta_index == index
                    &&& desc.delta_status == status
                    &&& desc.old_file.binary == old.binary
                    &&& desc.new_file.binary == new.binary
                    &&& invalid_path(old@.path) is None
                    &&& invalid_path(new@.path) is None
                    &&& path_text(desc.old_file.path) == old_side(status, decoded_path(old@.path))
                    &&& path_text(desc.new_file.path) == new_side(status, decoded_path(new@.path))
                },
                Err(e) => is_bad_path_of(e, old@, new@),
            },
    {
        let old_binary = old.binary;
        let new_binary = new.binary;
        let old_check = check_path(old.path);
        let new_check = check_path(new.path);
        Self::from_checks(index, status, old_check, old_binary, new_check, new_binary)
    }
}

/// Why a delta could not be applied.
#[derive(Debug)]
pub enum DeltaApplyError {
    /// The tree has no file at the path that the patch starts from.
    MissingOriginalFile { path: String },
    /// The delta has a status that is not applied.
    UnexpectedDeltaStatus { status: DeltaStatus },
    /// The delta changes a binary file.
    BinaryDelta,
    /// The delta is not what its status promises.
    UnexpectedState,
    /// The patch of the delta is no unified diff.
    FailParseGitDelta { cause: diffy::ParsePatchError },
    /// The patch of the delta does not fit the file.
    FailApplyPatch { cause: diffy::ApplyError },
    /// The diff did not give the patch of the delta.
    UnexpectedGit { cause: git2::Error },
}

/// Why a patch message could not be applied.
#[derive(Debug)]
pub enum PatchApplyError {
    /// The delta `delta` failed.
    FailDelta { delta: DeltaDesc, cause: DeltaApplyError },
    /// A delta names an absolute path.
    ForbiddenAbsolutePath(AbsolutePathError),
    /// A delta names a path that is not valid UTF-8.
    InvalidUtf8Path { path: Vec<u8> },
}

/// The error of a message that a bad path stops.
pub fn bad_path(e: BadPathError) -> (r: PatchApplyError)
    ensures
        match e {
            BadPathError::AbsolutePath(cause) => r == PatchApplyError::ForbiddenAbsolutePath(
                cause,
            ),
            BadPathError::InvalidUtf8Path { path } => r == (PatchApplyError::InvalidUtf8Path {
                path,
            }),
        },
{
    match e {
        BadPathError::AbsolutePath(cause) => PatchApplyError::ForbiddenAbsolutePath(cause),
        BadPathError::InvalidUtf8Path { path } => PatchApplyError::InvalidUtf8Path { path },
    }
}

/// One change to the tree that the new commit is built from.
#[derive(Debug)]
pub enum TreeEdit {
    /// The entry at `path` goes.
    Remove { path: String },
    /// The entry at `path` becomes a blob with the given contents.
    Upsert { path: String, contents: Vec<u8> },
}

/// A patch that waits for the blob it starts from.
#[derive(Debug)]
pub struct PendingPatch {
    pub source: String,
    pub target: String,
    pub patch: Vec<u8>,
}

/// What a delta asks for, before any blob is read.
#[derive(Debug)]
pub enum DeltaStart {
    /// The delta is done, and this is its edit.
    Edit(TreeEdit),
    /// The delta patches the blob at the pending patch's source.
    NeedBlob(PendingPatch),
}

/// What a delta with the description `desc` does first: a deletion, which
/// must have an old path and no new one, removes the old path and is done;
/// a status that changes content goes on to its patch; and any other status
/// is refused.
pub fn delta_removal(desc: &DeltaDesc) -> (r: Result<Option<TreeEdit>, DeltaApplyError>)
    ensures
        match r {
            Ok(Some(TreeEdit::Remove { path })) => desc.delta_status == DeltaStatus::Deleted
                && desc.new_file.path is None && path_text(desc.old_file.path) == Some(path@),
            Ok(Some(TreeEdit::Upsert { .. })) => false,
            Ok(None) => is_patch_status(desc.delta_status),
            Err(DeltaApplyError::UnexpectedState) => desc.delta_status == DeltaStatus::Deleted
                && !(desc.old_file.path is Some && desc.new_file.path is None),
            Err(DeltaApplyError::UnexpectedDeltaStatus { status }) => status == desc.delta_status
                && status != DeltaStatus::Deleted && !is_patch_status(status),
            Err(_) => false,
        },
{
    match desc.delta_status {
        DeltaStatus::Deleted => match (desc.old_path(), desc.new_path()) {
            (Some(path), None) => {
                let path = str_chars(path);
                Ok(Some(TreeEdit::Remove { path: string_of(path.as_slice()) }))
            },
            _ => Err(DeltaApplyError::UnexpectedState),
        },
        DeltaStatus::Added | DeltaStatus::Modified | DeltaStatus::Renamed | DeltaStatus::Copied => {
            Ok(None)
        },
        status => Err(DeltaApplyError::UnexpectedDeltaStatus { status }),
    }
}

/// The text of the patch of a delta, from what the diff gave for it. No
/// text means a binary delta where either side is binary, and is not
/// expected otherwise.
pub fn patch_text(desc: &DeltaDesc, patch: Result<Option<Vec<u8>>, git2::Error>) -> (r: Result<
    Vec<u8>,
    DeltaApplyError,
>)
    ensures
        match r {
            Ok(text) => patch == Ok::<Option<Vec<u8>>, git2::Error>(Some(text)),
            Err(DeltaApplyError::UnexpectedGit { cause }) => patch == Err::<
                Option<Vec<u8>>,
                git2::Error,
            >(cause),
            Err(DeltaApplyError::BinaryDelta) => patch == Ok::<Option<Vec<u8>>, git2::Error>(None)
                && (desc.old_file.binary || desc.new_file.binary),
            Err(DeltaApplyError::UnexpectedState) => patch == Ok::<Option<Vec<u8>>, git2::Error>(
                None,
            ) && !(desc.old_file.binary || desc.new_file.binary),
            Err(_) => false,
        },
{
    match patch {
        Err(cause) => Err(DeltaApplyError::UnexpectedGit { cause }),
        Ok(None) => if desc.old_file.binary || desc.new_file.binary {
            Err(DeltaApplyError::BinaryDelta)
        } else {
            Err(DeltaApplyError::UnexpectedState)
        },
        Ok(Some(text)) => Ok(text),
    }
}

/// The edit that stores what came of applying a patch at `target`.
pub fn patched_edit(target: String, result: Patched) -> (r: Result<TreeEdit, DeltaApplyError>)
    ensures
        match r {
            Ok(TreeEdit::Upsert { path, contents }) => path == target && result == Patched::Text(
                contents,
            ),
            Ok(TreeEdit::Remove { .. }) => false,
            Err(DeltaApplyError::FailParseGitDelta { cause }) => result == Patched::NoPatch(cause),
            Err(DeltaApplyError::FailApplyPatch { cause }) => result == Patched::NoPlace(cause),
            Err(_) => false,
        },
{
    match result {
        Patched::Text(contents) => Ok(TreeEdit::Upsert { path: target, contents }),
        Patched::NoPatch(cause) => Err(DeltaApplyError::FailParseGitDelta { cause }),
        Patched::NoPlace(cause) => Err(DeltaApplyError::FailApplyPatch { cause }),
    }
}

/// What `finish_delta` makes of a pending patch and the blob at its source.
pub open spec fn finished(
    r: Result<TreeEdit, DeltaApplyError>,
    pending: PendingPatch,
    base: Option<Vec<u8>>,
) -> bool {
    match r {
        Ok(TreeEdit::Upsert { path, contents }) => {
            &&& path == pending.target
            &&& base matches Some(blob)
            &&& is_unified_diff(pending.patch@)
            &&& patched_text(blob@, pending.patch@) == Some(contents@)
        },
        Ok(TreeEdit::Remove { .. }) => false,
        Err(DeltaApplyError::MissingOriginalFile { path }) => base is None && path
            == pending.source,
        Err(DeltaApplyError::FailParseGitDelta { .. }) => base is Some && !is_unified_diff(
            pending.patch@,
        ),
        Err(DeltaApplyError::FailApplyPatch { .. }) => {
            &&& base matches Some(blob)
            &&& is_unified_diff(pending.patch@)
            &&& patched_text(blob@, pending.patch@) is None
        },
        Err(_) => false,
    }
}

/// The edit that a pending patch makes of `base`, the blob at its
/// source. Where the tree has no such blob, `base` is `None`, and the
/// delta fails.
pub fn finish_delta(pending: PendingPatch, base: Option<Vec<u8>>) -> (r: Result<
    TreeEdit,
    DeltaApplyError,
>)
    ensures
        finished(r, pending, base),
{
    match base {
        None => Err(DeltaApplyError::MissingOriginalFile { path: pending.source }),
        Some(blob) => {
            let result = apply_unified_diff(blob.as_slice(), pending.patch.as_slice());
            patched_edit(pending.target, result)
        },
    }
}

/// What `apply_delta` makes of the delta `rec` with the description `desc`.
pub open spec fn started(
    r: Result<DeltaStart, DeltaApplyError>,
    desc: DeltaDesc,
    rec: DeltaRecord,
) -> bool {
    match r {
        Ok(DeltaStart::Edit(TreeEdit::Remove { path })) => {
            &&& desc.delta_status == DeltaStatus::Deleted
            &&& desc.new_file.path is None
            &&& path_text(desc.old_file.path) == Some(path@)
        },
        Ok(DeltaStart::Edit(TreeEdit::Upsert { path, contents })) => {
            &&& is_patch_status(desc.delta_status)
            &&& rec.patch matches PatchRecord::Text(text)
            &&& is_unified_diff(text)
            &&& desc.old_file.path is None
            &&& path_text(desc.new_file.path) == Some(path@)
            &&& patched_text(Seq::<u8>::empty(), text) == Some(contents@)
        },
        Ok(DeltaStart::NeedBlob(pending)) => {
            &&& is_patch_status(desc.delta_status)
            &&& rec.patch == PatchRecord::Text(pending.patch@)
            &&& is_unified_diff(pending.patch@)
            &&& path_text(desc.old_file.path) == Some(pending.source@)
            &&& path_text(desc.new_file.path) == Some(pending.target@)
        },
        Err(DeltaApplyError::UnexpectedDeltaStatus { status }) => {
            &&& status == desc.delta_status
            &&& status != DeltaStatus::Deleted
            &&& !is_patch_status(status)
        },
        Err(DeltaApplyError::UnexpectedState) => {
            ||| (desc.delta_status == DeltaStatus::Deleted && !(desc.old_file.path is Some
                && desc.new_file.path is None))
            ||| (is_patch_status(desc.delta_status) && rec.patch is Absent && !(
            desc.old_file.binary || desc.new_file.binary))
            ||| (is_patch_status(desc.delta_status) && rec.patch is Text && is_unified_diff(
                rec.patch.text().unwrap(),
            ) && desc.new_file.path is None)
        },
        Err(DeltaApplyError::BinaryDelta) => {
            &&& is_patch_status(desc.delta_status)
            &&& rec.patch is Absent
            &&& (desc.old_file.binary || desc.new_file.binary)
        },
        Err(DeltaApplyError::UnexpectedGit { .. }) => {
            &&& is_patch_status(desc.delta_status)
            &&& rec.patch is Failed
        },
        Err(DeltaApplyError::FailParseGitDelta { .. }) => {
            &&& is_patch_status(desc.delta_status)
            &&& rec.patch matches PatchRecord::Text(text)
            &&& !is_unified_diff(text)
        },
        Err(DeltaApplyError::FailApplyPatch { .. }) => {
            &&& is_patch_status(desc.delta_status)
            &&& rec.patch matches PatchRecord::Text(text)
            &&& is_unified_diff(text)
            &&& desc.old_file.path is None
            &&& desc.new_file.path is Some
            &&& patched_text(Seq::<u8>::empty(), text) is None
        },
        Err(DeltaApplyError::MissingOriginalFile { .. }) => false,
    }
}

impl EmailMessage {
    /// The description of the delta at `index`.
    pub fn describe_delta(&self, index: usize) -> (r: Result<DeltaDesc, BadPathError>)
        requires
            index < self.deltas().len(),
        ensures
            match r {
                Ok(desc) => desc.wf() && desc.delta_index == Some(index) && describes(
                    desc,
                    self.deltas()[index as int],
                ),
                Err(e) => is_bad_path_of(
                    e,
                    self.deltas()[index as int].old_file,
                    self.deltas()[index as int].new_file,
                ),
            },
    {
        let diff = self.diff();
        let (old, new) = delta_files(diff, index);
        DeltaDesc::from_git(Some(index), delta_status(diff, index), old, new)
    }

    /// What the delta at `index`, described by `desc`, asks for before any
    /// blob is read: its edit where it needs none, or the patch that waits
    /// for one.
    ///
    /// A deletion must have an old path and no new one, and removes the old
    /// path. A delta that changes content must have a patch, which must be
    /// a unified diff; it patches the blob at its old path, and a file
    /// without old path is made from nothing at once. Any other status is
    /// refused.
    pub fn apply_delta(&self, index: usize, desc: &DeltaDesc) -> (r: Result<
        DeltaStart,
        DeltaApplyError,
    >)
        requires
            index < self.deltas().len(),
            describes(*desc, self.deltas()[index as int]),
        ensures
            started(r, *desc, self.deltas()[index as int]),
    {
        let diff = self.diff();
        match delta_removal(desc) {
            Err(e) => {
                return Err(e);
            },
            Ok(Some(edit)) => {
                return Ok(DeltaStart::Edit(edit));
            },
            Ok(None) => {},
        }
        let patch = match patch_text(desc, delta_patch(diff, index)) {
            Ok(text) => text,
            Err(e) => {
                return Err(e);
            },
        };
        // Tried on nothing, the patch shows whether it is a unified diff at
        // all; for a file that starts from nothing this is its application.
        let empty: Vec<u8> = Vec::new();
        let trial = apply_unified_diff(empty.as_slice(), patch.as_slice());
        let target = match desc.new_path() {
            Some(path) => {
                let path = str_chars(path);
                string_of(path.as_slice())
            },
            None => {
                return match trial {
                    Patched::NoPatch(cause) => Err(DeltaApplyError::FailParseGitDelta { cause }),
                    _ => Err(DeltaApplyError::UnexpectedState),
                };
            },
        };
        match (desc.old_path(), trial) {
            (_, Patched::NoPatch(cause)) => Err(DeltaApplyError::FailParseGitDelta { cause }),
            (None, trial) => match patched_edit(target, trial) {
                Ok(edit) => Ok(DeltaStart::Edit(edit)),
                Err(e) => Err(e),
            },
            (Some(path), _) => {
                let path = str_chars(path);
                Ok(
                    DeltaStart::NeedBlob(
                        PendingPatch { source: string_of(path.as_slice()), target, patch },
                    ),
                )
            },
        }
    }
}

/// What the engine asks of its caller.
#[derive(Debug)]
pub enum ApplyRequest {
    /// Hand in the blob that the base tree holds at `path`.
    Blob { path: String },
    /// Every delta is done: build the tree from the edits, and commit.
    Commit,
}

/// How far the application of a message has come: the edits of the deltas
/// that are done, and the patch that waits for its blob, if one does.
#[derive(Debug)]
pub struct PatchApply {
    edits: Vec<TreeEdit>,
    waiting: Option<(DeltaDesc, PendingPatch)>,
}

/// The path whose blob the patch of the delta `rec` starts from, where it
/// starts from one.
pub open spec fn record_source(rec: DeltaRecord) -> Option<Seq<char>> {
    if rec.status == DeltaStatus::Added {
        None
    } else {
        decoded_path(rec.old_file.path)
    }
}

/// `edit` is an edit that the delta `rec` can make: the removal of its old
/// path where it deletes; where it changes content, a blob at its new path
/// that its patch makes of some blob, and of nothing where it has no
/// source.
pub open spec fn is_edit_of(edit: TreeEdit, rec: DeltaRecord) -> bool {
    match edit {
        TreeEdit::Remove { path } => rec.status == DeltaStatus::Deleted && decoded_path(
            rec.old_file.path,
        ) == Some(path@),
        TreeEdit::Upsert { path, contents } => {
            &&& is_patch_status(rec.status)
            &&& decoded_path(rec.new_file.path) == Some(path@)
            &&& rec.patch matches PatchRecord::Text(text)
            &&& is_unified_diff(text)
            &&& if record_source(rec) is None {
                patched_text(Seq::<u8>::empty(), text) == Some(contents@)
            } else {
                exists|blob: Seq<u8>| #[trigger] patched_text(blob, text) == Some(contents@)
            }
        },
    }
}

impl PatchApply {
    /// The edits of the deltas that are done, in the order of the deltas.
    pub closed spec fn done(&self) -> Seq<TreeEdit> {
        self.edits@
    }

    /// The patch that waits for its blob.
    pub closed spec fn pending(&self) -> Option<PendingPatch> {
        match self.waiting {
            Some(w) => Some(w.1),
            None => None,
        }
    }

    /// The description of the delta whose patch waits.
    pub closed spec fn pending_delta(&self) -> Option<DeltaDesc> {
        match self.waiting {
            Some(w) => Some(w.0),
            None => None,
        }
    }

    /// The state belongs to the application of the deltas `deltas`: each
    /// edit is one of the delta at its place, and a patch that waits is
    /// that of the first delta that is not done, whose description, with
    /// its place in the diff, waits with it.
    pub open spec fn wf(&self, deltas: Seq<DeltaRecord>) -> bool {
        &&& self.done().len() <= deltas.len()
        &&& forall|k: int|
            0 <= k < self.done().len() ==> is_edit_of(#[trigger] self.done()[k], deltas[k])
        &&& self.pending() is Some <==> self.pending_delta() is Some
        &&& match (self.pending_delta(), self.pending()) {
            (Some(desc), Some(pending)) => {
                &&& self.done().len() < deltas.len()
                &&& is_at(desc, self.done().len() as int)
                &&& describes(desc, deltas[self.done().len() as int])
                &&& started(
                    Ok::<DeltaStart, DeltaApplyError>(DeltaStart::NeedBlob(pending)),
                    desc,
                    deltas[self.done().len() as int],
                )
            },
            _ => true,
        }
    }

    /// The edits of the deltas that are done.
    pub fn edits(&self) -> (r: &Vec<TreeEdit>)
        ensures
            r@ == self.done(),
    {
        &self.edits
    }

    /// The edits of the deltas that are done.
    pub fn into_edits(self) -> (r: Vec<TreeEdit>)
        ensures
            r@ == self.done(),
    {
        self.edits
    }
}

/// A delta that `apply_delta` has started on is one that its edit fits.
pub proof fn lemma_started_edit(edit: TreeEdit, desc: DeltaDesc, rec: DeltaRecord)
    requires
        describes(desc, rec),
        started(Ok::<DeltaStart, DeltaApplyError>(DeltaStart::Edit(edit)), desc, rec),
    ensures
        is_edit_of(edit, rec),
{
}

/// The description `desc` is that of the delta at the place `position` of
/// its diff, counted from zero.
pub open spec fn is_at(desc: DeltaDesc, position: int) -> bool {
    match desc.delta_index {
        Some(index) => index == position,
        None => false,
    }
}

/// `e` is a failure of the delta `rec`, which stands at the place `position`
/// of its diff: of the patch `resumed`, which waited for the blob `base`,
/// or else of the delta's paths or of its start. A delta that fails is
/// described with its place.
pub open spec fn is_failure_of(
    e: PatchApplyError,
    rec: DeltaRecord,
    position: int,
    resumed: Option<PendingPatch>,
    base: Option<Vec<u8>>,
) -> bool {
    match e {
        PatchApplyError::FailDelta { delta, cause } => {
            &&& is_at(delta, position)
            &&& describes(delta, rec)
            &&& match resumed {
                Some(pending) => finished(
                    Err::<TreeEdit, DeltaApplyError>(cause),
                    pending,
                    base,
                ),
                None => started(Err::<DeltaStart, DeltaApplyError>(cause), delta, rec),
            }
        },
        PatchApplyError::ForbiddenAbsolutePath(cause) => resumed is None && is_bad_path_of(
            BadPathError::AbsolutePath(cause),
            rec.old_file,
            rec.new_file,
        ),
        PatchApplyError::InvalidUtf8Path { path } => resumed is None && is_bad_path_of(
            BadPathError::InvalidUtf8Path { path },
            rec.old_file,
            rec.new_file,
        ),
    }
}

impl EmailMessage {
    /// The state in which no delta is done.
    pub fn begin_apply(&self) -> (r: PatchApply)
        ensures
            r.wf(self.deltas()),
            r.done().len() == 0,
            r.pending() is None,
    {
        PatchApply { edits: Vec::new(), waiting: None }
    }

    /// Applies the deltas that are not done, in order, until one needs a
    /// blob of the base tree or all are done.
    ///
    /// Where a patch waits in `state`, `base` is the blob that it asked
    /// for, or `None` where the tree has none. The patch is applied first:
    /// either its edit is added to those that are done, or the application
    /// fails with the failure of that patch.
    /// Any failure ends the application, and it is the failure of the
    /// first delta that is not done. A path that the platform takes for
    /// absolute, or that is not valid UTF-8, fails its delta before
    /// anything else is asked of it, whatever its status.
    ///
    /// On `Commit` the caller builds the tree from the edits, and commits
    /// it with the author, the date and the message of this patch message
    /// on top of the current head. Nothing was written before.
    pub fn apply_commit(&self, state: &mut PatchApply, base: Option<Vec<u8>>) -> (r: Result<
        ApplyRequest,
        PatchApplyError,
    >)
        requires
            old(state).wf(self.deltas()),
        ensures
            final(state).wf(self.deltas()),
            old(state).done().len() <= final(state).done().len(),
            final(state).done().subrange(0, old(state).done().len() as int) == old(state).done(),
            old(state).pending() is Some ==> final(state).done().len() > old(state).done().len()
                || (r is Err && final(state).done().len() == old(state).done().len()),
            old(state).pending() is Some && final(state).done().len() > old(state).done().len()
                ==> finished(
                Ok::<TreeEdit, DeltaApplyError>(final(state).done()[old(state).done().len() as int]),
                old(state).pending().unwrap(),
                base,
            ),
            match r {
                Ok(ApplyRequest::Commit) => final(state).done().len() == self.deltas().len()
                    && final(state).pending() is None,
                Ok(ApplyRequest::Blob { path }) => final(state).pending() is Some
                    && final(state).pending().unwrap().source@ == path@,
                Err(e) => {
                    &&& final(state).done().len() < self.deltas().len()
                    &&& is_failure_of(
                        e,
                        self.deltas()[final(state).done().len() as int],
                        final(state).done().len() as int,
                        if final(state).done().len() == old(state).done().len() {
                            old(state).pending()
                        } else {
                            None
                        },
                        base,
                    )
                },
            },
    {
        let ghost deltas = self.deltas();
        let ghost before = state.done();
        let waiting = state.waiting.take();
        match waiting {
            Some((desc, pending)) => {
                match finish_delta(pending, base) {
                    Ok(edit) => {
                        assert(is_edit_of(edit, deltas[before.len() as int])) by {
                            assert(patched_text(base->0@, pending.patch@) is Some);
                        }
                        state.edits.push(edit);
                    },
                    Err(cause) => {
                        return Err(PatchApplyError::FailDelta { delta: desc, cause });
                    },
                }
            },
            None => {},
        }
        let count = self.delta_count();
        loop
            invariant
                count == deltas.len(),
                deltas == self.deltas(),
                state.wf(deltas),
                state.pending() is None,
                before == old(state).done(),
                before.len() <= state.done().len(),
                state.done().subrange(0, before.len() as int) == before,
                old(state).pending() is Some ==> state.done().len() > before.len() && finished(
                    Ok::<TreeEdit, DeltaApplyError>(state.done()[before.len() as int]),
                    old(state).pending().unwrap(),
                    base,
                ),
            decreases count - state.edits.len(),
        {
            let index = state.edits.len();
            if index >= count {
                return Ok(ApplyRequest::Commit);
            }
            let desc = match self.describe_delta(index) {
                Ok(desc) => desc,
                Err(e) => {
                    return Err(bad_path(e));
                },
            };
            match self.apply_delta(index, &desc) {
                Err(cause) => {
                    return Err(PatchApplyError::FailDelta { delta: desc, cause });
                },
                Ok(DeltaStart::Edit(edit)) => {
                    proof {
                        lemma_started_edit(edit, desc, deltas[index as int]);
                    }
                    state.edits.push(edit);
                },
                Ok(DeltaStart::NeedBlob(pending)) => {
                    let path = pending.source.clone();
                    state.waiting = Some((desc, pending));
                    return Ok(ApplyRequest::Blob { path });
                },
            }
        }
    }
}

} // verus!
