//! The patch files of one directory, in the order of their numbers.
use crate::text::{ends_with, has_suffix, str_chars, string_of};
use camino::Utf8Path;
use vstd::prelude::*;
use vstd::string::*;

verus! {

/// What a repository is in the middle of.
#[derive(Debug, Clone, Copy, PartialEq, Eq, Structural)]
pub enum RepoState {
    Clean,
    Merge,
    Revert,
    RevertSequence,
    CherryPick,
    CherryPickSequence,
    Bisect,
    Rebase,
    RebaseInteractive,
    RebaseMerge,
    ApplyMailbox,
    ApplyMailboxOrRebase,
}

/// Why a patch directory could not be read or regenerated.
#[derive(Debug)]
pub enum PatchError {
    /// Patches cannot be regenerated from a repository in this state.
    PatchedRepoInvalidState { state: RepoState },
    /// A patch file's name does not start with its number.
    InvalidPatchName { name: String },
}

/// A decimal digit.
pub open spec fn is_digit_char(c: char) -> bool {
    '0' <= c <= '9'
}

/// The value of the decimal digit `c`.
pub open spec fn digit_value(c: char) -> nat {
    (c as u32 - '0' as u32) as nat
}

/// `name` is four digits, a `-`, anything, and `.patch`.
pub open spec fn is_patch_name(name: Seq<char>) -> bool {
    &&& name.len() >= 5
    &&& is_digit_char(name[0])
    &&& is_digit_char(name[1])
    &&& is_digit_char(name[2])
    &&& is_digit_char(name[3])
    &&& name[4] == '-'
    &&& has_suffix(name, ".patch"@)
}

/// The number that the first four characters of `name` spell.
pub open spec fn sequence_number(name: Seq<char>) -> nat {
    digit_value(name[0]) * 1000 + digit_value(name[1]) * 100 + digit_value(name[2]) * 10
        + digit_value(name[3])
}

/// One patch file: its number, its name and where it lies.
#[derive(Debug)]
pub struct PatchFile {
    index: usize,
    name: String,
    path: String,
}

/// `name` holds no character that separates the components of a path.
pub open spec fn has_no_separator(name: Seq<char>) -> bool {
    forall|i: int| 0 <= i < name.len() ==> #[trigger] name[i] != '/' && name[i] != '\\'
}

/// `name` is one component of a path and nothing else: it starts with a
/// digit and holds no separator.
pub open spec fn is_plain_name(name: Seq<char>) -> bool {
    name.len() > 0 && is_digit_char(name[0]) && has_no_separator(name)
}

/// Calls `Utf8Path::join`, which appends `name` to `parent` as a path. A
/// name that is one plain component is neither absolute nor a prefix and is
/// left as it is, so the result ends with it. The separator before it is
/// the platform's, so nothing more is said of the text that comes back.
#[verifier::external_body]
fn join_path(parent: &str, name: &str) -> (r: String)
    ensures
        is_plain_name(name@) ==> has_suffix(r@, name@),
{
    Utf8Path::new(parent).join(name).into_string()
}

/// The value of `c` where it is a decimal digit.
fn digit_of(c: char) -> (r: Option<usize>)
    ensures
        r is Some <==> is_digit_char(c),
        r matches Some(d) ==> d == digit_value(c),
{
    if c == '0' {
        Some(0)
    } else if c == '1' {
        Some(1)
    } else if c == '2' {
        Some(2)
    } else if c == '3' {
        Some(3)
    } else if c == '4' {
        Some(4)
    } else if c == '5' {
        Some(5)
    } else if c == '6' {
        Some(6)
    } else if c == '7' {
        Some(7)
    } else if c == '8' {
        Some(8)
    } else if c == '9' {
        Some(9)
    } else {
        None
    }
}

impl PatchFile {
    /// The number of the patch.
    pub closed spec fn spec_index(&self) -> nat {
        self.index as nat
    }

    /// The name of the file, without its directory.
    pub closed spec fn spec_name(&self) -> Seq<char> {
        self.name@
    }

    /// The path that the file holds: what joining its name to its directory
    /// gave when the file was found. It ends with the name; the platform
    /// chooses the separator that stands before it.
    pub closed spec fn spec_path(&self) -> Seq<char> {
        self.path@
    }

    /// The number of the patch.
    pub fn index(&self) -> (r: usize)
        ensures
            r == self.spec_index(),
    {
        self.index
    }

    /// The name of the file, without its directory.
    pub fn file_name(&self) -> (r: &str)
        ensures
            r@ == self.spec_name(),
    {
        self.name.as_str()
    }

    /// The file's path: its name joined to the directory it was found in.
    pub fn path(&self) -> (r: &str)
        ensures
            r@ == self.spec_path(),
    {
        self.path.as_str()
    }

    /// The path ends with the name of the file, where the name is one
    /// plain component.
    pub open spec fn path_ends_in_name(&self) -> bool {
        is_plain_name(self.spec_name()) ==> has_suffix(self.spec_path(), self.spec_name())
    }

    /// The patch file `file_name` of the directory `parent`: its number,
    /// its name, and the path that joining the name to the directory
    /// gives. A name that is not four digits, a `-`, anything, and `.patch`
    /// is refused.
    pub fn parse(parent: &str, file_name: &str) -> (r: Result<Self, PatchError>)
        ensures
            r is Ok <==> is_patch_name(file_name@),
            r matches Ok(file) ==> file.spec_index() == sequence_number(file_name@)
                && file.spec_name() == file_name@ && file.path_ends_in_name(),
            r matches Err(e) ==> e matches PatchError::InvalidPatchName { name } && name@
                == file_name@,
    {
        let name = str_chars(file_name);
        let suffix = str_chars(".patch");
        if name.len() >= 5 && name[4] == '-' && ends_with(name.as_slice(), suffix.as_slice()) {
            match (digit_of(name[0]), digit_of(name[1]), digit_of(name[2]), digit_of(name[3])) {
                (Some(a), Some(b), Some(c), Some(d)) => {
                    return Ok(
                        PatchFile {
                            index: a * 1000 + b * 100 + c * 10 + d,
                            name: string_of(name.as_slice()),
                            path: join_path(parent, file_name),
                        },
                    );
                },
                _ => {},
            }
        }
        Err(PatchError::InvalidPatchName { name: string_of(name.as_slice()) })
    }
}

/// The names among `names` that end in `.patch`, in order.
pub open spec fn patch_names(names: Seq<Seq<char>>) -> Seq<Seq<char>>
    decreases names.len(),
{
    if names.len() == 0 {
        Seq::<Seq<char>>::empty()
    } else if has_suffix(names.last(), ".patch"@) {
        patch_names(names.drop_last()).push(names.last())
    } else {
        patch_names(names.drop_last())
    }
}

/// Every name of `names` is the name of a patch file.
pub open spec fn all_patch_names(names: Seq<Seq<char>>) -> bool {
    forall|i: int| 0 <= i < names.len() ==> is_patch_name(#[trigger] names[i])
}

/// The numbers of `names` never fall from one to the next.
pub open spec fn ascending(names: Seq<Seq<char>>) -> bool {
    forall|i: int, j: int|
        0 <= i < j < names.len() ==> sequence_number(#[trigger] names[i]) <= sequence_number(
            #[trigger] names[j],
        )
}

/// How many names at the start of `sorted` have a number of at most `n`,
/// where `sorted` is ascending.
pub open spec fn insertion_point(sorted: Seq<Seq<char>>, n: nat) -> int
    decreases sorted.len(),
{
    if sorted.len() == 0 {
        0
    } else if sequence_number(sorted.last()) <= n {
        sorted.len() as int
    } else {
        insertion_point(sorted.drop_last(), n)
    }
}

/// `names` in the order of their numbers. Names with the same number stay
/// in the order in which they were given.
pub open spec fn by_number(names: Seq<Seq<char>>) -> Seq<Seq<char>>
    decreases names.len(),
{
    if names.len() == 0 {
        Seq::<Seq<char>>::empty()
    } else {
        let sorted = by_number(names.drop_last());
        sorted.insert(insertion_point(sorted, sequence_number(names.last())), names.last())
    }
}

/// The insertion point lies within the sequence, behind the numbers that
/// are not larger and before those that are.
pub proof fn lemma_insertion_point(sorted: Seq<Seq<char>>, n: nat)
    requires
        ascending(sorted),
    ensures
        0 <= insertion_point(sorted, n) <= sorted.len(),
        forall|i: int|
            0 <= i < insertion_point(sorted, n) ==> sequence_number(#[trigger] sorted[i]) <= n,
        forall|i: int|
            insertion_point(sorted, n) <= i < sorted.len() ==> sequence_number(
                #[trigger] sorted[i],
            ) > n,
    decreases sorted.len(),
{
    if sorted.len() > 0 {
        let rest = sorted.drop_last();
        if sequence_number(sorted.last()) > n {
            assert forall|i: int, j: int| 0 <= i < j < rest.len() implies sequence_number(
                #[trigger] rest[i],
            ) <= sequence_number(#[trigger] rest[j]) by {
                assert(rest[i] == sorted[i] && rest[j] == sorted[j]);
            }
            lemma_insertion_point(rest, n);
            let p = insertion_point(rest, n);
            assert forall|i: int| 0 <= i < p implies sequence_number(#[trigger] sorted[i])
                <= n by {
                assert(rest[i] == sorted[i]);
            }
            assert forall|i: int| p <= i < sorted.len() implies sequence_number(
                #[trigger] sorted[i],
            ) > n by {
                if i < rest.len() {
                    assert(rest[i] == sorted[i]);
                }
            }
        } else {
            assert forall|i: int| 0 <= i < sorted.len() implies sequence_number(
                #[trigger] sorted[i],
            ) <= n by {
                if i < sorted.len() - 1 {
                    assert(sequence_number(sorted[i]) <= sequence_number(
                        sorted[sorted.len() - 1],
                    ));
                }
            }
        }
    }
}

/// Ordering by number gives an ascending sequence of the same names.
pub proof fn lemma_by_number_ascending(names: Seq<Seq<char>>)
    ensures
        ascending(by_number(names)),
        by_number(names).len() == names.len(),
        by_number(names).to_multiset() == names.to_multiset(),
    decreases names.len(),
{
    if names.len() == 0 {
        assert(names =~= by_number(names));
    } else {
        let rest = names.drop_last();
        lemma_by_number_ascending(rest);
        let sorted = by_number(rest);
        let n = sequence_number(names.last());
        lemma_insertion_point(sorted, n);
        let p = insertion_point(sorted, n);
        let out = sorted.insert(p, names.last());
        assert forall|i: int, j: int| 0 <= i < j < out.len() implies sequence_number(
            #[trigger] out[i],
        ) <= sequence_number(#[trigger] out[j]) by {
            if i < p {
                assert(out[i] == sorted[i]);
            } else if i > p {
                assert(out[i] == sorted[i - 1]);
            }
            if j < p {
                assert(out[j] == sorted[j]);
            } else if j > p {
                assert(out[j] == sorted[j - 1]);
            }
        }
        vstd::seq_lib::to_multiset_insert(sorted, p, names.last());
        assert(names =~= rest.push(names.last()));
        vstd::seq_lib::to_multiset_build(rest, names.last());
        assert(out.to_multiset() =~= sorted.to_multiset().insert(names.last()));
        assert(names.to_multiset() =~= rest.to_multiset().insert(names.last()));
    }
}

/// The patch files of one directory.
#[derive(Debug)]
pub struct PatchFileSet {
    patch_dir: String,
    patches: Vec<PatchFile>,
}

impl PatchFileSet {
    /// The names of the files, in the order of the set.
    pub closed spec fn names(&self) -> Seq<Seq<char>> {
        Seq::new(self.patches@.len(), |i: int| self.patches@[i].spec_name())
    }

    /// The numbers of the files, in the order of the set.
    pub closed spec fn indices(&self) -> Seq<nat> {
        Seq::new(self.patches@.len(), |i: int| self.patches@[i].spec_index())
    }

    /// The directory that the files lie in.
    pub closed spec fn dir(&self) -> Seq<char> {
        self.patch_dir@
    }

    /// The paths of the files, in the order of the set.
    pub closed spec fn paths(&self) -> Seq<Seq<char>> {
        Seq::new(self.patches@.len(), |i: int| self.patches@[i].spec_path())
    }

    /// Every file has a patch file's name, the number that the name spells,
    /// and a path that ends with the name where the name is one plain
    /// component; and the numbers never fall from one file to the next.
    pub closed spec fn wf(&self) -> bool {
        &&& forall|i: int|
            0 <= i < self.patches@.len() ==> is_patch_name(
                #[trigger] self.patches@[i].spec_name(),
            ) && self.patches@[i].spec_index() == sequence_number(self.patches@[i].spec_name())
                && self.patches@[i].path_ends_in_name()
        &&& ascending(self.names())
    }

    /// Each file's path ends with its name, where the name is one plain
    /// component.
    pub open spec fn paths_end_in_names(&self) -> bool {
        &&& self.paths().len() == self.names().len()
        &&& forall|i: int|
            0 <= i < self.names().len() && is_plain_name(#[trigger] self.names()[i])
                ==> has_suffix(self.paths()[i], self.names()[i])
    }

    /// In a well-formed set each file's path ends with its name.
    pub proof fn lemma_paths(&self)
        requires
            self.wf(),
        ensures
            self.paths_end_in_names(),
    {
        assert forall|i: int|
            0 <= i < self.names().len() && is_plain_name(
                #[trigger] self.names()[i],
            ) implies has_suffix(self.paths()[i], self.names()[i]) by {
            assert(self.patches@[i].path_ends_in_name());
        }
    }

    /// A well-formed set is in ascending order of its numbers.
    pub proof fn lemma_ascending(&self)
        requires
            self.wf(),
        ensures
            self.indices().len() == self.names().len(),
            forall|i: int|
                0 <= i < self.names().len() ==> #[trigger] self.indices()[i] == sequence_number(
                    self.names()[i],
                ),
            forall|i: int, j: int|
                0 <= i < j < self.indices().len() ==> #[trigger] self.indices()[i]
                    <= #[trigger] self.indices()[j],
    {
        assert forall|i: int, j: int| 0 <= i < j < self.indices().len() implies #[trigger] self.indices()[i]
            <= #[trigger] self.indices()[j] by {
            assert(self.indices()[i] == sequence_number(self.names()[i]));
            assert(self.indices()[j] == sequence_number(self.names()[j]));
        }
    }

    /// The set of the patch files among the entries `file_names` of the
    /// directory `patch_dir`.
    pub fn load(patch_dir: &str, file_names: &Vec<String>) -> (r: Result<Self, PatchError>)
        ensures
            r is Ok <==> all_patch_names(patch_names(strings(file_names@))),
            r matches Ok(set) ==> {
                &&& set.wf()
                &&& set.paths_end_in_names()
                &&& set.dir() == patch_dir@
                &&& set.names() == by_number(patch_names(strings(file_names@)))
            },
            r matches Err(e) ==> e matches PatchError::InvalidPatchName { name }
                && first_bad_name(strings(file_names@)) == Some(name@),
    {
        let dir = str_chars(patch_dir);
        let mut set = PatchFileSet { patch_dir: string_of(dir.as_slice()), patches: Vec::new() };
        assert(set.names() =~= Seq::<Seq<char>>::empty());
        match set.reload_files(file_names) {
            Ok(()) => Ok(set),
            Err(e) => Err(e),
        }
    }

    /// Forgets the files, and takes the patch files among the entries
    /// `file_names` of the directory in their place. Entries that do not
    /// end in `.patch` are passed over. The first entry that does and is
    /// not the name of a patch file is the error, and the set then holds
    /// the patch files that were listed before it.
    pub fn reload_files(&mut self, file_names: &Vec<String>) -> (r: Result<(), PatchError>)
        ensures
            final(self).dir() == old(self).dir(),
            final(self).wf(),
            final(self).paths_end_in_names(),
            r is Ok <==> all_patch_names(patch_names(strings(file_names@))),
            r is Ok ==> final(self).names() == by_number(patch_names(strings(file_names@))),
            r matches Err(e) ==> e matches PatchError::InvalidPatchName { name }
                && first_bad_name(strings(file_names@)) == Some(name@),
            r is Err ==> final(self).names() == by_number(
                patch_names(strings(file_names@)).take(
                    crate::utils::first_match(
                        patch_names(strings(file_names@)),
                        0,
                        bad_names(),
                    ),
                ),
            ),
    {
        self.patches.clear();
        let ghost all = strings(file_names@);
        let suffix = str_chars(".patch");
        let mut i: usize = 0;
        assert(self.names() =~= Seq::<Seq<char>>::empty());
        while i < file_names.len()
            invariant
                i <= file_names.len(),
                all == strings(file_names@),
                suffix@ == ".patch"@,
                self.patch_dir == old(self).patch_dir,
                self.wf(),
                all_patch_names(patch_names(all.take(i as int))),
                self.names() == by_number(patch_names(all.take(i as int))),
            decreases file_names.len() - i,
        {
            let file_name = file_names[i].as_str();
            let ghost seen = patch_names(all.take(i as int));
            proof {
                assert(all.take(i + 1).drop_last() =~= all.take(i as int));
                assert(all.take(i + 1).last() == file_name@);
            }
            let name = str_chars(file_name);
            if ends_with(name.as_slice(), suffix.as_slice()) {
                match PatchFile::parse(self.patch_dir.as_str(), file_name) {
                    Err(e) => {
                        proof {
                            lemma_patch_names_prefix(all, i + 1);
                            let found = patch_names(all.take(i + 1));
                            assert(found == seen.push(file_name@));
                            assert forall|k: int| 0 <= k < seen.len() implies !bad_names()(
                                #[trigger] patch_names(all)[k],
                            ) by {
                                assert(found[k] == seen[k]);
                            }
                            assert(patch_names(all)[seen.len() as int] == found[seen.len() as int]);
                            crate::utils::lemma_first_match(
                                patch_names(all),
                                0,
                                bad_names(),
                                seen.len() as int,
                            );
                            assert forall|k: int| 0 <= k < seen.len() implies patch_names(all)[k]
                                == seen[k] by {
                                assert(found[k] == seen[k]);
                            }
                            assert(patch_names(all).take(seen.len() as int) =~= seen);
                        }
                        return Err(e);
                    },
                    Ok(file) => {
                        self.insert(file);
                        proof {
                            assert(patch_names(all.take(i + 1)) == seen.push(file_name@));
                            assert(seen.push(file_name@).drop_last() =~= seen);
                        }
                    },
                }
            }
            i += 1;
        }
        assert(all.take(file_names.len() as int) =~= all);
        Ok(())
    }

    /// Puts `file` behind the files whose number is not larger than its
    /// own.
    fn insert(&mut self, file: PatchFile)
        requires
            old(self).wf(),
            is_patch_name(file.spec_name()),
            file.spec_index() == sequence_number(file.spec_name()),
            file.path_ends_in_name(),
        ensures
            final(self).wf(),
            final(self).patch_dir == old(self).patch_dir,
            final(self).names() == old(self).names().insert(
                insertion_point(old(self).names(), file.spec_index()),
                file.spec_name(),
            ),
    {
        let ghost names = self.names();
        let ghost n = file.spec_index();
        let mut p: usize = self.patches.len();
        assert(names.take(p as int) =~= names);
        while p > 0 && self.patches[p - 1].index > file.index
            invariant
                p <= self.patches.len(),
                self.wf(),
                names == self.names(),
                n == file.spec_index(),
                insertion_point(names, n) == insertion_point(names.take(p as int), n),
            decreases p,
        {
            proof {
                assert(names.take(p as int).drop_last() =~= names.take(p - 1));
                assert(names.take(p as int).last() == names[p - 1]);
            }
            p -= 1;
        }
        proof {
            assert(names.take(self.patches.len() as int) =~= names);
            if p > 0 {
                assert(names.take(p as int).last() == names[p - 1]);
            }
            assert(insertion_point(names, n) == p);
        }
        let ghost name = file.spec_name();
        let ghost before = self.patches@;
        self.patches.insert(p, file);
        proof {
            assert(self.names() =~= names.insert(p as int, name));
            lemma_insert_ascending(names, name);
            assert forall|i: int| 0 <= i < self.patches@.len() implies is_patch_name(
                #[trigger] self.patches@[i].spec_name(),
            ) && self.patches@[i].spec_index() == sequence_number(
                self.patches@[i].spec_name(),
            ) && self.patches@[i].path_ends_in_name() by {
                if i < p {
                    assert(self.patches@[i] == before[i]);
                } else if i > p {
                    assert(self.patches@[i] == before[i - 1]);
                }
            }
        }
    }

    /// The number of files.
    pub fn len(&self) -> (n: usize)
        ensures
            n == self.names().len(),
    {
        self.patches.len()
    }

    /// The files, in ascending order of their numbers.
    pub fn patches(&self) -> (r: &[PatchFile])
        requires
            self.wf(),
        ensures
            r@.len() == self.names().len(),
            forall|i: int|
                0 <= i < r@.len() ==> (#[trigger] r@[i]).spec_name() == self.names()[i]
                    && r@[i].spec_index() == self.indices()[i] && r@[i].spec_path()
                    == self.paths()[i] && r@[i].path_ends_in_name(),
            forall|i: int, j: int|
                0 <= i < j < r@.len() ==> (#[trigger] r@[i]).spec_index() <= (
                #[trigger] r@[j]).spec_index(),
    {
        proof {
            self.lemma_ascending();
            assert forall|i: int, j: int| 0 <= i < j < self.patches@.len() implies (
            #[trigger] self.patches@[i]).spec_index() <= (
            #[trigger] self.patches@[j]).spec_index() by {
                assert(self.indices()[i] == self.patches@[i].spec_index());
                assert(self.indices()[j] == self.patches@[j].spec_index());
            }
        }
        self.patches.as_slice()
    }

    /// The directory that the files lie in.
    pub fn patch_dir(&self) -> (r: &str)
        ensures
            r@ == self.dir(),
    {
        self.patch_dir.as_str()
    }

    /// How many files, from the first on, a regeneration replaces.
    ///
    /// In a clean repository these are all. During a rebase they are the
    /// files that the rebase has replayed: as many as its current step says,
    /// none where it has not started, and never more than there are. In any
    /// other state nothing can be regenerated.
    pub fn stale(&self, state: RepoState, rebase_step: Option<usize>) -> (r: Result<
        usize,
        PatchError,
    >)
        ensures
            r == stale_count(state, rebase_step, self.names().len()),
    {
        match state {
            RepoState::Clean => Ok(self.patches.len()),
            RepoState::Rebase | RepoState::RebaseInteractive => {
                let step = match rebase_step {
                    Some(step) => step,
                    None => 0,
                };
                if step < self.patches.len() {
                    Ok(step)
                } else {
                    Ok(self.patches.len())
                }
            },
            _ => Err(PatchError::PatchedRepoInvalidState { state }),
        }
    }
}

/// How many of `total` files, from the first on, a regeneration replaces.
pub open spec fn stale_count(state: RepoState, rebase_step: Option<usize>, total: nat) -> Result<
    usize,
    PatchError,
> {
    match state {
        RepoState::Clean => Ok(total as usize),
        RepoState::Rebase | RepoState::RebaseInteractive => {
            let step = match rebase_step {
                Some(step) => step,
                None => 0usize,
            };
            if step < total {
                Ok(step)
            } else {
                Ok(total as usize)
            }
        },
        _ => Err(PatchError::PatchedRepoInvalidState { state }),
    }
}

/// The text of each string of `v`.
pub open spec fn strings(v: Seq<String>) -> Seq<Seq<char>> {
    Seq::new(v.len(), |i: int| v[i]@)
}

/// The patch names among the first `n` names stand first among the patch
/// names of all.
pub proof fn lemma_patch_names_prefix(names: Seq<Seq<char>>, n: int)
    requires
        0 <= n <= names.len(),
    ensures
        patch_names(names.take(n)).len() <= patch_names(names).len(),
        forall|k: int|
            0 <= k < patch_names(names.take(n)).len() ==> patch_names(names)[k]
                == #[trigger] patch_names(names.take(n))[k],
    decreases names.len() - n,
{
    if n < names.len() {
        lemma_patch_names_prefix(names, n + 1);
        assert(names.take(n + 1).drop_last() =~= names.take(n));
        let longer = patch_names(names.take(n + 1));
        assert forall|k: int| 0 <= k < patch_names(names.take(n)).len() implies patch_names(
            names,
        )[k] == #[trigger] patch_names(names.take(n))[k] by {
            assert(longer[k] == patch_names(names.take(n))[k]);
        }
    } else {
        assert(names.take(n) =~= names);
    }
}

/// A name put at its insertion point leaves the names in ascending order.
pub proof fn lemma_insert_ascending(sorted: Seq<Seq<char>>, name: Seq<char>)
    requires
        ascending(sorted),
    ensures
        ascending(sorted.insert(insertion_point(sorted, sequence_number(name)), name)),
{
    let n = sequence_number(name);
    lemma_insertion_point(sorted, n);
    let p = insertion_point(sorted, n);
    let out = sorted.insert(p, name);
    assert forall|i: int, j: int| 0 <= i < j < out.len() implies sequence_number(
        #[trigger] out[i],
    ) <= sequence_number(#[trigger] out[j]) by {
        if i < p {
            assert(out[i] == sorted[i]);
        } else if i > p {
            assert(out[i] == sorted[i - 1]);
        }
        if j < p {
            assert(out[j] == sorted[j]);
        } else if j > p {
            assert(out[j] == sorted[j - 1]);
        }
    }
}

/// The names that are not those of patch files.
pub open spec fn bad_names() -> spec_fn(Seq<char>) -> bool {
    |name: Seq<char>| !is_patch_name(name)
}

/// The first of `names` that ends in `.patch` and is not the name of a
/// patch file, where there is one.
pub open spec fn first_bad_name(names: Seq<Seq<char>>) -> Option<Seq<char>> {
    let candidates = patch_names(names);
    let at = crate::utils::first_match(candidates, 0, bad_names());
    if at < candidates.len() {
        Some(candidates[at])
    } else {
        None
    }
}

} // verus!
