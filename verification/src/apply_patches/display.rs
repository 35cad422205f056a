//! Deltas and their failures in words.
use crate::apply_patches::apply::{path_text, AbsolutePathError, DeltaDesc, DeltaFileDesc};
use crate::apply_patches::diff::DeltaStatus;
use crate::format_patches::format::{append_chars, decimal, decimal_digits};
use vstd::prelude::*;
use vstd::string::*;

verus! {

/// The name of a status.
pub open spec fn status_name(status: DeltaStatus) -> Seq<char> {
    match status {
        DeltaStatus::Unmodified => "unmodified"@,
        DeltaStatus::Added => "added"@,
        DeltaStatus::Deleted => "deleted"@,
        DeltaStatus::Modified => "modified"@,
        DeltaStatus::Renamed => "renamed"@,
        DeltaStatus::Copied => "copied"@,
        DeltaStatus::Ignored => "ignored"@,
        DeltaStatus::Untracked => "untracked"@,
        DeltaStatus::Typechange => "type changed"@,
        DeltaStatus::Unreadable => "unreadable"@,
        DeltaStatus::Conflicted => "conflicted"@,
    }
}

/// The name of a status.
pub fn delta_status_name(status: DeltaStatus) -> (r: &'static str)
    ensures
        r@ == status_name(status),
{
    match status {
        DeltaStatus::Unmodified => "unmodified",
        DeltaStatus::Added => "added",
        DeltaStatus::Deleted => "deleted",
        DeltaStatus::Modified => "modified",
        DeltaStatus::Renamed => "renamed",
        DeltaStatus::Copied => "copied",
        DeltaStatus::Ignored => "ignored",
        DeltaStatus::Untracked => "untracked",
        DeltaStatus::Typechange => "type changed",
        DeltaStatus::Unreadable => "unreadable",
        DeltaStatus::Conflicted => "conflicted",
    }
}

/// Whether two paths, either of which may be missing, are the same.
fn same_path(a: &Option<String>, b: &Option<String>) -> (r: bool)
    ensures
        r == (path_text(*a) == path_text(*b)),
{
    match (a, b) {
        (Some(a), Some(b)) => {
            let a = crate::text::str_chars(a.as_str());
            let b = crate::text::str_chars(b.as_str());
            crate::text::same_chars(a.as_slice(), b.as_slice())
        },
        (None, None) => true,
        _ => false,
    }
}

impl DeltaFileDesc {
    /// The side in words: its path, marked where the file is binary, or
    /// `/dev/null` where it has none.
    pub open spec fn description(&self) -> Seq<char> {
        match self.path {
            Some(p) => if self.binary {
                "binary "@ + p@
            } else {
                p@
            },
            None => "/dev/null"@,
        }
    }

    /// The side in words.
    pub fn describe(&self) -> (r: String)
        ensures
            r@ == self.description(),
    {
        let mut r = String::new();
        match &self.path {
            Some(p) => {
                if self.binary {
                    r.append("binary ");
                }
                r.append(p.as_str());
                assert(r@ =~= self.description());
            },
            None => {
                r.append("/dev/null");
                assert(r@ =~= self.description());
            },
        }
        r
    }
}

impl DeltaDesc {
    /// What the delta does, in words, without its number.
    pub open spec fn change(&self) -> Seq<char> {
        match self.delta_status {
            DeltaStatus::Added => "added "@ + self.new_file.description(),
            DeltaStatus::Deleted => "removed "@ + self.old_file.description(),
            status => if path_text(self.old_file.path) == path_text(self.new_file.path) {
                status_name(status) + " "@ + self.old_file.description()
            } else {
                status_name(status) + " "@ + self.old_file.description() + " -> "@
                    + self.new_file.description()
            },
        }
    }

    /// The delta in words: what it does, and its number in the diff,
    /// counted from one.
    pub open spec fn description(&self) -> Seq<char> {
        match self.delta_index {
            Some(index) => self.change() + " (#"@ + decimal((index + 1) as nat) + ")"@,
            None => self.change(),
        }
    }

    /// The delta in words.
    pub fn describe(&self) -> (r: String)
        ensures
            r@ == self.description(),
    {
        let mut r = String::new();
        match self.delta_status {
            DeltaStatus::Added => {
                r.append("added ");
                r.append(self.new_file.describe().as_str());
                assert(r@ =~= self.change());
            },
            DeltaStatus::Deleted => {
                r.append("removed ");
                r.append(self.old_file.describe().as_str());
                assert(r@ =~= self.change());
            },
            status => {
                r.append(delta_status_name(status));
                r.append(" ");
                r.append(self.old_file.describe().as_str());
                if !same_path(&self.old_file.path, &self.new_file.path) {
                    r.append(" -> ");
                    r.append(self.new_file.describe().as_str());
                }
                assert(r@ =~= self.change());
            },
        }
        match self.delta_index {
            Some(index) => {
                r.append(" (#");
                let number = decimal_digits(index as u128 + 1);
                append_chars(&mut r, number.as_slice());
                r.append(")");
                assert(r@ =~= self.description());
            },
            None => {},
        }
        r
    }
}

impl AbsolutePathError {
    /// The error in words.
    pub open spec fn description(&self) -> Seq<char> {
        "Absolute paths are forbidden for "@ + (match self.role {
            Some(role) => role@,
            None => "?"@,
        }) + " (path `"@ + self.path@ + "`)"@
    }

    /// The error in words.
    pub fn message(&self) -> (r: String)
        ensures
            r@ == self.description(),
    {
        let mut r = String::new();
        r.append("Absolute paths are forbidden for ");
        match self.role {
            Some(role) => {
                r.append(role);
            },
            None => {
                r.append("?");
            },
        }
        r.append(" (path `");
        r.append(self.path.as_str());
        r.append("`)");
        assert(r@ =~= self.description());
        r
    }
}

} // verus!
