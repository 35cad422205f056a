//! Applying a whole directory of patches, in the order of their names.
use crate::apply_patches::apply::PatchApplyError;
use crate::apply_patches::email::{
    is_parse_of, is_patch_message, EmailMessage, InvalidEmailMessage,
};
use crate::text::{copy_range, ends_with, has_suffix, str_chars, string_from_utf8, string_of};
use vstd::prelude::*;
use vstd::string::*;
use vstd::utf8::{decode_utf8, valid_utf8};

verus! {

/// `std::io::Error`, what a failed read reports.
#[verifier::external_type_specification]
#[verifier::external_body]
pub struct ExIoError(std::io::Error);

/// Why a directory of patches could not be applied.
#[derive(Debug)]
#[non_exhaustive]
pub enum BulkApplyError {
    /// The directory of the patches could not be listed.
    ErrorAccessPatchDir { patch_dir: String, cause: std::io::Error },
    /// The name of a patch file is not valid UTF-8.
    PatchNameInvalidUtf8 { raw_entry: Vec<u8> },
    /// A patch file could not be read.
    FailedReadPatch { patch_file: String, cause: std::io::Error },
    /// The contents of a patch file are not valid UTF-8.
    PatchContentsInvalidUtf8 { patch_file: String },
    /// The contents of a patch file are no patch message.
    FailedParsePatch { patch_file: String, cause: InvalidEmailMessage },
    /// A patch could not be applied.
    FailedApplyPatch { name: String, cause: PatchApplyError },
}

/// The entry of a directory is a patch file: its name has the extension
/// `patch`.
pub open spec fn is_patch_entry(file_name: Seq<char>) -> bool {
    file_name.len() > 6 && has_suffix(file_name, ".patch"@)
}

/// The name of a patch: the name of its file without the extension.
pub open spec fn entry_name(file_name: Seq<char>) -> Seq<char> {
    file_name.subrange(0, file_name.len() - 6)
}

/// `a` does not come behind `b` in the order of strings: at the first place
/// where they differ `a` has the smaller character, or `a` ends first.
pub open spec fn precedes(a: Seq<char>, b: Seq<char>) -> bool
    decreases a.len(),
{
    if a.len() == 0 {
        true
    } else if b.len() == 0 {
        false
    } else if a[0] != b[0] {
        a[0] < b[0]
    } else {
        precedes(a.drop_first(), b.drop_first())
    }
}

/// Of two strings, one does not come behind the other.
pub proof fn lemma_precedes_total(a: Seq<char>, b: Seq<char>)
    ensures
        precedes(a, b) || precedes(b, a),
    decreases a.len(),
{
    if a.len() > 0 && b.len() > 0 && a[0] == b[0] {
        lemma_precedes_total(a.drop_first(), b.drop_first());
    }
}

/// What does not come behind a string does not come behind its successors.
pub proof fn lemma_precedes_transitive(a: Seq<char>, b: Seq<char>, c: Seq<char>)
    requires
        precedes(a, b),
        precedes(b, c),
    ensures
        precedes(a, c),
    decreases a.len(),
{
    if a.len() > 0 && b.len() > 0 && c.len() > 0 && a[0] == b[0] && b[0] == c[0] {
        lemma_precedes_transitive(a.drop_first(), b.drop_first(), c.drop_first());
    }
}

/// Whether `a` does not come behind `b` in the order of strings.
pub fn name_precedes(a: &[char], b: &[char]) -> (r: bool)
    ensures
        r == precedes(a@, b@),
{
    let mut i: usize = 0;
    assert(a@.skip(0) =~= a@ && b@.skip(0) =~= b@);
    while i < a.len() && i < b.len() && a[i] == b[i]
        invariant
            i <= a.len(),
            i <= b.len(),
            precedes(a@, b@) == precedes(a@.skip(i as int), b@.skip(i as int)),
        decreases a.len() - i,
    {
        proof {
            assert(a@.skip(i as int).drop_first() =~= a@.skip(i + 1));
            assert(b@.skip(i as int).drop_first() =~= b@.skip(i + 1));
        }
        i += 1;
    }
    if i == a.len() {
        true
    } else if i == b.len() {
        false
    } else {
        assert(a@.skip(i as int)[0] == a@[i as int]);
        assert(b@.skip(i as int)[0] == b@[i as int]);
        a[i] < b[i]
    }
}

/// The names never fall from one to the next.
pub open spec fn in_name_order(names: Seq<Seq<char>>) -> bool {
    forall|i: int, j: int|
        0 <= i < j < names.len() ==> precedes(#[trigger] names[i], #[trigger] names[j])
}

/// How many names at the start of `sorted` do not come behind `name`, where
/// `sorted` is in order.
pub open spec fn name_insertion_point(sorted: Seq<Seq<char>>, name: Seq<char>) -> int
    decreases sorted.len(),
{
    if sorted.len() == 0 {
        0
    } else if precedes(sorted.last(), name) {
        sorted.len() as int
    } else {
        name_insertion_point(sorted.drop_last(), name)
    }
}

/// `names` in the order of strings. Equal names stay in the order in which
/// they were given.
pub open spec fn by_name(names: Seq<Seq<char>>) -> Seq<Seq<char>>
    decreases names.len(),
{
    if names.len() == 0 {
        Seq::<Seq<char>>::empty()
    } else {
        let sorted = by_name(names.drop_last());
        sorted.insert(name_insertion_point(sorted, names.last()), names.last())
    }
}

/// The insertion point lies behind the names that do not come behind
/// `name`, and before those that do.
pub proof fn lemma_name_insertion_point(sorted: Seq<Seq<char>>, name: Seq<char>)
    requires
        in_name_order(sorted),
    ensures
        0 <= name_insertion_point(sorted, name) <= sorted.len(),
        forall|i: int|
            0 <= i < name_insertion_point(sorted, name) ==> precedes(#[trigger] sorted[i], name),
        forall|i: int|
            name_insertion_point(sorted, name) <= i < sorted.len() ==> precedes(
                name,
                #[trigger] sorted[i],
            ),
    decreases sorted.len(),
{
    if sorted.len() > 0 {
        let rest = sorted.drop_last();
        if !precedes(sorted.last(), name) {
            assert forall|i: int, j: int| 0 <= i < j < rest.len() implies precedes(
                #[trigger] rest[i],
                #[trigger] rest[j],
            ) by {
                assert(rest[i] == sorted[i] && rest[j] == sorted[j]);
            }
            lemma_name_insertion_point(rest, name);
            lemma_precedes_total(sorted.last(), name);
            let p = name_insertion_point(rest, name);
            assert forall|i: int| 0 <= i < p implies precedes(#[trigger] sorted[i], name) by {
                assert(rest[i] == sorted[i]);
            }
            assert forall|i: int| p <= i < sorted.len() implies precedes(
                name,
                #[trigger] sorted[i],
            ) by {
                if i < rest.len() {
                    assert(rest[i] == sorted[i]);
                }
            }
        } else {
            assert forall|i: int| 0 <= i < sorted.len() implies precedes(
                #[trigger] sorted[i],
                name,
            ) by {
                if i < sorted.len() - 1 {
                    assert(precedes(sorted[i], sorted[sorted.len() - 1]));
                    lemma_precedes_transitive(sorted[i], sorted.last(), name);
                }
            }
        }
    }
}

/// A name put at its insertion point leaves the names in order.
pub proof fn lemma_insert_in_name_order(sorted: Seq<Seq<char>>, name: Seq<char>)
    requires
        in_name_order(sorted),
    ensures
        in_name_order(sorted.insert(name_insertion_point(sorted, name), name)),
{
    lemma_name_insertion_point(sorted, name);
    let p = name_insertion_point(sorted, name);
    let out = sorted.insert(p, name);
    assert forall|i: int, j: int| 0 <= i < j < out.len() implies precedes(
        #[trigger] out[i],
        #[trigger] out[j],
    ) by {
        if i < p {
            assert(out[i] == sorted[i]);
        } else if i > p {
            assert(out[i] == sorted[i - 1]);
        }
        if j < p {
            assert(out[j] == sorted[j]);
        } else if j > p {
            assert(out[j] == sorted[j - 1]);
        }
    }
}

/// Ordering by name gives the same names, in order.
pub proof fn lemma_by_name_ordered(names: Seq<Seq<char>>)
    ensures
        in_name_order(by_name(names)),
        by_name(names).to_multiset() == names.to_multiset(),
    decreases names.len(),
{
    if names.len() == 0 {
        assert(names =~= by_name(names));
    } else {
        let rest = names.drop_last();
        lemma_by_name_ordered(rest);
        let sorted = by_name(rest);
        lemma_insert_in_name_order(sorted, names.last());
        lemma_name_insertion_point(sorted, names.last());
        let p = name_insertion_point(sorted, names.last());
        vstd::seq_lib::to_multiset_insert(sorted, p, names.last());
        assert(names =~= rest.push(names.last()));
        vstd::seq_lib::to_multiset_build(rest, names.last());
        assert(by_name(names).to_multiset() =~= sorted.to_multiset().insert(names.last()));
        assert(names.to_multiset() =~= rest.to_multiset().insert(names.last()));
    }
}

/// A patch that was read and parsed, and waits to be applied.
pub struct BufferedPatch {
    pub patch_name: String,
    pub patch_file: String,
    pub email: EmailMessage,
}

/// The patches of one directory, in the order in which they are applied.
pub struct BulkPatchApply {
    patch_dir: String,
    patches: Vec<BufferedPatch>,
}

impl BulkPatchApply {
    /// The directory that the patches lie in.
    pub closed spec fn dir(&self) -> Seq<char> {
        self.patch_dir@
    }

    /// The names of the buffered patches, in the order of application.
    pub closed spec fn names(&self) -> Seq<Seq<char>> {
        Seq::new(self.patches@.len(), |i: int| self.patches@[i].patch_name@)
    }

    /// The buffered patches.
    pub closed spec fn buffered(&self) -> Seq<BufferedPatch> {
        self.patches@
    }

    /// The patches are in the order of their names.
    pub open spec fn wf(&self) -> bool {
        in_name_order(self.names())
    }

    /// No patch of the directory `patch_dir` is buffered yet.
    pub fn new(patch_dir: String) -> (r: Self)
        ensures
            r.wf(),
            r.dir() == patch_dir@,
            r.names() == Seq::<Seq<char>>::empty(),
    {
        let r = BulkPatchApply { patch_dir, patches: Vec::new() };
        assert(r.names() =~= Seq::<Seq<char>>::empty());
        r
    }

    /// The name of the patch in the file `file_name`, where the file is a
    /// patch file.
    pub fn patch_name(file_name: &str) -> (r: Option<String>)
        ensures
            r is Some <==> is_patch_entry(file_name@),
            r matches Some(name) ==> name@ == entry_name(file_name@),
    {
        let name = str_chars(file_name);
        let suffix = str_chars(".patch");
        proof {
            reveal_strlit(".patch");
        }
        if name.len() > 6 && ends_with(name.as_slice(), suffix.as_slice()) {
            let stem = copy_range(name.as_slice(), 0, name.len() - 6);
            Some(string_of(stem.as_slice()))
        } else {
            None
        }
    }

    /// Parses the contents of the patch file `patch_file`, which holds the
    /// patch `patch_name`, and puts the patch in its place among the
    /// buffered ones: behind those whose name does not come behind its own.
    pub fn buffer(&mut self, patch_name: String, patch_file: String, contents: Vec<u8>) -> (r:
        Result<(), BulkApplyError>)
        requires
            old(self).wf(),
        ensures
            final(self).wf(),
            final(self).dir() == old(self).dir(),
            match r {
                Ok(()) => {
                    &&& valid_utf8(contents@)
                    &&& is_patch_message(decode_utf8(contents@))
                    &&& final(self).names() == old(self).names().insert(
                        name_insertion_point(old(self).names(), patch_name@),
                        patch_name@,
                    )
                    &&& final(self).buffered().len() == old(self).buffered().len() + 1
                    &&& final(self).buffered()[name_insertion_point(
                        old(self).names(),
                        patch_name@,
                    )].patch_file == patch_file
                    &&& is_parse_of(
                        Ok::<EmailMessage, InvalidEmailMessage>(
                            final(self).buffered()[name_insertion_point(
                                old(self).names(),
                                patch_name@,
                            )].email,
                        ),
                        decode_utf8(contents@),
                    )
                },
                Err(BulkApplyError::PatchContentsInvalidUtf8 { patch_file: file }) => {
                    &&& !valid_utf8(contents@)
                    &&& file == patch_file
                    &&& final(self).names() == old(self).names()
                },
                Err(BulkApplyError::FailedParsePatch { patch_file: file, cause }) => {
                    &&& valid_utf8(contents@)
                    &&& !is_patch_message(decode_utf8(contents@))
                    &&& is_parse_of(
                        Err::<EmailMessage, InvalidEmailMessage>(cause),
                        decode_utf8(contents@),
                    )
                    &&& file == patch_file
                    &&& final(self).names() == old(self).names()
                },
                Err(_) => false,
            },
    {
        let text = match string_from_utf8(contents) {
            Ok(text) => text,
            Err(_) => {
                return Err(BulkApplyError::PatchContentsInvalidUtf8 { patch_file });
            },
        };
        let email = match EmailMessage::parse(text.as_str()) {
            Ok(email) => email,
            Err(cause) => {
                return Err(BulkApplyError::FailedParsePatch { patch_file, cause });
            },
        };
        let ghost names = self.names();
        let ghost name = patch_name@;
        let key = str_chars(patch_name.as_str());
        let mut p: usize = self.patches.len();
        assert(names.take(p as int) =~= names);
        while p > 0
            invariant
                p <= self.patches.len(),
                names == self.names(),
                key@ == name,
                name_insertion_point(names, name) == name_insertion_point(
                    names.take(p as int),
                    name,
                ),
            ensures
                p <= self.patches.len(),
                name_insertion_point(names, name) == p,
            decreases p,
        {
            let other = str_chars(self.patches[p - 1].patch_name.as_str());
            proof {
                assert(names.take(p as int).drop_last() =~= names.take(p - 1));
                assert(names.take(p as int).last() == names[p - 1]);
            }
            if name_precedes(other.as_slice(), key.as_slice()) {
                break;
            }
            p -= 1;
        }
        proof {
            lemma_insert_in_name_order(names, name);
        }
        self.patches.insert(p, BufferedPatch { patch_name, patch_file, email });
        assert(self.names() =~= names.insert(p as int, name));
        Ok(())
    }

    /// The buffered patches, in the order in which they are to be applied:
    /// that of their names.
    pub fn apply_all(self) -> (r: Vec<BufferedPatch>)
        requires
            self.wf(),
        ensures
            r@ == self.buffered(),
            forall|i: int, j: int|
                0 <= i < j < r@.len() ==> precedes(
                    (#[trigger] r@[i]).patch_name@,
                    (#[trigger] r@[j]).patch_name@,
                ),
    {
        proof {
            assert forall|i: int, j: int| 0 <= i < j < self.patches@.len() implies precedes(
                (#[trigger] self.patches@[i]).patch_name@,
                (#[trigger] self.patches@[j]).patch_name@,
            ) by {
                assert(self.names()[i] == self.patches@[i].patch_name@);
                assert(self.names()[j] == self.patches@[j].patch_name@);
            }
        }
        self.patches
    }
}

} // verus!
