//! Turning a rendered patch email into the canonical text of a patch file.
use crate::text::{ascii_bytes, byte_lines, has_prefix, literal_bytes, trim};
use crate::utils::{
    bstr_trim, bytes_start_with, first_match, lemma_first_match, not_blank, trimmed_bytes,
    SimpleParser,
};
use vstd::prelude::*;
use vstd::string::*;
use vstd::utf8::{decode_utf8, valid_utf8};

pub mod format;

verus! {

/// Why a rendered patch could not be cleaned up.
#[derive(Debug, Clone, Copy, PartialEq, Eq)]
pub enum CleanupPatchErr {
    /// The text ended before the line that `expected` describes.
    UnexpectedEof { expected: &'static str },
    /// A line did not have the form that the cleanup relies on.
    InvalidLine { line_number: usize, message: &'static str },
}

/// The line that carries the subject.
pub open spec fn is_subject_line(l: Seq<u8>) -> bool {
    has_prefix(l, ascii_bytes("Subject: [PATCH]"@))
}

/// The line that opens the diff statistics.
pub open spec fn is_stats_line(l: Seq<u8>) -> bool {
    has_prefix(l, ascii_bytes("---"@))
}

/// The first line of the diff section.
pub open spec fn is_diff_line(l: Seq<u8>) -> bool {
    has_prefix(l, ascii_bytes("diff"@))
}

/// The lines that carry a subject.
pub open spec fn subject_lines() -> spec_fn(Seq<u8>) -> bool {
    |l: Seq<u8>| is_subject_line(l)
}

/// The lines that may open the diff statistics.
pub open spec fn stats_lines() -> spec_fn(Seq<u8>) -> bool {
    |l: Seq<u8>| is_stats_line(l)
}

/// The lines that may start the diff section.
pub open spec fn diff_lines() -> spec_fn(Seq<u8>) -> bool {
    |l: Seq<u8>| is_diff_line(l)
}

/// The text made of `lines`, each followed by a newline.
pub open spec fn join_lines(lines: Seq<Seq<u8>>) -> Seq<u8>
    decreases lines.len(),
{
    if lines.len() == 0 {
        Seq::<u8>::empty()
    } else {
        join_lines(lines.drop_last()) + lines.last().push(10u8)
    }
}

/// The commit message of the rendered patch `s` as it stands there: the
/// lines from the first one after the subject that is not blank up to the
/// diff statistics.
pub open spec fn rendered_message(s: Seq<u8>) -> Seq<u8> {
    let ls = byte_lines(s);
    let subject = first_match(ls, 0, subject_lines());
    let body = first_match(ls, subject + 1, not_blank());
    let stats = first_match(ls, body, stats_lines());
    join_lines(ls.subrange(body, stats))
}

/// Where `message` is valid UTF-8, what is left of it after trimming is
/// valid UTF-8 too, and spells the text of `message` without the white
/// space at its two ends.
pub open spec fn trims_as_text(message: Seq<u8>) -> bool {
    valid_utf8(message) ==> valid_utf8(trimmed_bytes(message)) && decode_utf8(
        trimmed_bytes(message),
    ) == trim(decode_utf8(message))
}

/// The canonical text of a rendered patch, or the description of the line
/// that is missing from it.
///
/// Everything up to the subject line stays. The commit message between the
/// subject and the diff statistics is trimmed and set off by exactly one
/// blank line on either side. The statistics are dropped, and the text from
/// the first diff line on stays.
pub open spec fn cleaned(s: Seq<u8>) -> Result<Seq<u8>, Seq<char>> {
    let ls = byte_lines(s);
    let subject = first_match(ls, 0, subject_lines());
    let body = first_match(ls, subject + 1, not_blank());
    let stats = first_match(ls, body, stats_lines());
    let diff = first_match(ls, stats + 1, diff_lines());
    if subject >= ls.len() {
        Err("Subject line"@)
    } else if stats >= ls.len() {
        Err("Diff stats"@)
    } else if diff >= ls.len() {
        Err("Diff line"@)
    } else {
        let message = trimmed_bytes(rendered_message(s));
        Ok(
            join_lines(ls.subrange(0, subject + 1)) + seq![10u8] + (if message.len() > 0 {
                message.push(10u8)
            } else {
                Seq::<u8>::empty()
            }) + seq![10u8] + join_lines(ls.subrange(diff, ls.len() as int)),
        )
    }
}

/// Joining one more line appends it with its newline.
pub proof fn lemma_join_push(lines: Seq<Seq<u8>>, line: Seq<u8>)
    ensures
        join_lines(lines.push(line)) == join_lines(lines) + line.push(10u8),
{
    assert(lines.push(line).drop_last() =~= lines);
}

/// Appends `line` and a newline to `out`.
fn push_line(out: &mut Vec<u8>, line: &Vec<u8>)
    ensures
        final(out)@ == old(out)@ + line@.push(10u8),
{
    let mut i: usize = 0;
    while i < line.len()
        invariant
            i <= line.len(),
            out@ == old(out)@ + line@.take(i as int),
        decreases line.len() - i,
    {
        out.push(line[i]);
        assert((old(out)@ + line@.take(i as int)).push(line@[i as int]) =~= old(out)@
            + line@.take(i + 1));
        i += 1;
    }
    out.push(10u8);
    assert(line@.take(line.len() as int) =~= line@);
    assert(out@ =~= old(out)@ + line@.push(10u8));
}

/// Appends each of `lines`, followed by a newline, to `out`.
fn push_lines(out: &mut Vec<u8>, lines: &Vec<Vec<u8>>)
    ensures
        final(out)@ == old(out)@ + join_lines(crate::text::views_of(lines@)),
{
    let ghost all = crate::text::views_of(lines@);
    let mut i: usize = 0;
    while i < lines.len()
        invariant
            i <= lines.len(),
            all == crate::text::views_of(lines@),
            out@ == old(out)@ + join_lines(all.take(i as int)),
        decreases lines.len() - i,
    {
        push_line(out, &lines[i]);
        proof {
            assert(all.take(i + 1).drop_last() =~= all.take(i as int));
            assert(all.take(i + 1).last() == lines@[i as int]@);
            assert(out@ =~= old(out)@ + join_lines(all.take(i + 1)));
        }
        i += 1;
    }
    assert(all.take(lines.len() as int) =~= all);
}

/// The canonical text of the rendered patch `s`. Where there is one, the
/// commit message in it is trimmed as text.
pub fn cleanup_patch(s: &[u8]) -> (r: Result<Vec<u8>, CleanupPatchErr>)
    ensures
        r is Ok ==> trims_as_text(rendered_message(s@)),
        match r {
            Ok(out) => cleaned(s@) == Ok::<Seq<u8>, Seq<char>>(out@),
            Err(e) => e matches CleanupPatchErr::UnexpectedEof { expected } && cleaned(s@) == Err::<
                Seq<u8>,
                Seq<char>,
            >(expected@),
        },
{
    let ghost ls = byte_lines(s@);
    let mut result: Vec<u8> = Vec::new();
    let mut parser = SimpleParser::new(s);
    let ghost start = parser;
    proof {
        reveal_strlit("Subject: [PATCH]");
        reveal_strlit("---");
        reveal_strlit("diff");
    }
    // One newline, and only one, separates the subject from the message.
    let subject_prefix = literal_bytes("Subject: [PATCH]");
    let is_subject = |line: &Vec<u8>| -> (b: bool)
        ensures
            b == is_subject_line(line@)
        { bytes_start_with(line.as_slice(), subject_prefix) };
    let taken = parser.take_until(is_subject);
    proof {
        assert forall|k: int| 0 <= k < ls.len() implies start.raw_line(k)@ == #[trigger] ls[k] by {
            start.lemma_raw_line(k);
        }
        lemma_first_match(ls, 0, subject_lines(), parser.position() - if taken is Ok {
            1int
        } else {
            0int
        });
    }
    let (before, subject_line) = match taken {
        Ok(found) => found,
        Err(_) => {
            return Err(CleanupPatchErr::UnexpectedEof { expected: "Subject line" });
        },
    };
    let ghost subject = parser.position() - 1;
    push_lines(&mut result, &before);
    push_line(&mut result, &subject_line);
    proof {
        lemma_join_push(ls.subrange(0, subject), ls[subject]);
        assert(ls.subrange(0, subject + 1) =~= ls.subrange(0, subject).push(ls[subject]));
        assert(result@ =~= join_lines(ls.subrange(0, subject + 1)));
    }
    parser.skip_whitespace();
    let ghost body = parser.position();
    // The renderer adds diff statistics, which start at a line of dashes.
    let stats_prefix = literal_bytes("---");
    let is_stats = |line: &Vec<u8>| -> (b: bool)
        ensures
            b == is_stats_line(line@)
        { bytes_start_with(line.as_slice(), stats_prefix) };
    let ghost at_body = parser;
    let taken = parser.take_until(is_stats);
    proof {
        assert forall|k: int| 0 <= k < ls.len() implies at_body.raw_line(k)@ == #[trigger] ls[k] by {
            at_body.lemma_raw_line(k);
        }
        crate::utils::lemma_first_match_is_first(ls, subject + 1, not_blank());
        lemma_first_match(ls, body, stats_lines(), parser.position() - if taken is Ok {
            1int
        } else {
            0int
        });
    }
    let (message_lines, _) = match taken {
        Ok(found) => found,
        Err(_) => {
            return Err(CleanupPatchErr::UnexpectedEof { expected: "Diff stats" });
        },
    };
    let ghost stats = parser.position() - 1;
    let mut message: Vec<u8> = Vec::new();
    push_lines(&mut message, &message_lines);
    assert(message@ =~= join_lines(ls.subrange(body, stats)));
    let message = bstr_trim(message.as_slice());
    result.push(10u8);
    if message.len() > 0 {
        push_line(&mut result, &message);
    }
    result.push(10u8);
    let ghost head = result@;
    assert(head =~= join_lines(ls.subrange(0, subject + 1)) + seq![10u8] + (if message@.len() > 0 {
        message@.push(10u8)
    } else {
        Seq::<u8>::empty()
    }) + seq![10u8]);
    // Nothing counts until the diff itself begins.
    let diff_prefix = literal_bytes("diff");
    let is_diff = |line: &Vec<u8>| -> (b: bool)
        ensures
            b == is_diff_line(line@)
        { bytes_start_with(line.as_slice(), diff_prefix) };
    let ghost at_stats = parser;
    let taken = parser.take_until(is_diff);
    proof {
        assert forall|k: int| 0 <= k < ls.len() implies at_stats.raw_line(k)@ == #[trigger] ls[k] by {
            at_stats.lemma_raw_line(k);
        }
        lemma_first_match(ls, stats + 1, diff_lines(), parser.position() - if taken is Ok {
            1int
        } else {
            0int
        });
    }
    let (_, diff_line) = match taken {
        Ok(found) => found,
        Err(_) => {
            return Err(CleanupPatchErr::UnexpectedEof { expected: "Diff line" });
        },
    };
    let ghost diff = parser.position() - 1;
    push_line(&mut result, &diff_line);
    proof {
        lemma_join_push(ls.subrange(diff, diff), ls[diff]);
        assert(ls.subrange(diff, diff + 1) =~= ls.subrange(diff, diff).push(ls[diff]));
        assert(result@ =~= head + join_lines(ls.subrange(diff, diff + 1)));
    }
    loop
        invariant
            parser.wf(),
            parser.all_lines() == ls,
            0 <= diff < parser.position() <= ls.len(),
            result@ == head + join_lines(ls.subrange(diff, parser.position())),
        ensures
            parser.position() == ls.len(),
            result@ == head + join_lines(ls.subrange(diff, ls.len() as int)),
        decreases ls.len() - parser.position(),
    {
        let ghost at = parser.position();
        match parser.pop() {
            Ok(line) => {
                push_line(&mut result, &line);
                proof {
                    lemma_join_push(ls.subrange(diff, at), ls[at]);
                    assert(ls.subrange(diff, at + 1) =~= ls.subrange(diff, at).push(ls[at]));
                    assert(result@ =~= head + join_lines(ls.subrange(diff, at + 1)));
                }
            },
            Err(_) => {
                break;
            },
        }
    }
    proof {
        assert(subject == first_match(ls, 0, subject_lines()));
        assert(body == first_match(ls, subject + 1, not_blank()));
        assert(stats == first_match(ls, body, stats_lines()));
        assert(diff == first_match(ls, stats + 1, diff_lines()));
        assert(message@ == trimmed_bytes(join_lines(ls.subrange(body, stats))));
    }
    Ok(result)
}

/// Why a commit could not be made into a patch file.
#[derive(Debug, Clone, PartialEq, Eq)]
pub enum PatchFormatError {
    /// The commit has no message to name the patch after.
    InvalidCommitMessage { cause: format::InvalidCommitMessage },
    /// The rendered patch for the file `patch_file` could not be cleaned
    /// up.
    PatchCleanupError { patch_file: String, cause: CleanupPatchErr },
}

/// What is known of a patch file before its commit is rendered.
#[derive(Debug, Clone, PartialEq, Eq)]
pub struct PatchHead {
    /// The name of the patch file.
    pub patch_name: String,
    /// The summary of the commit message.
    pub summary: String,
    /// The body of the commit message.
    pub body: String,
}

/// Numbers the patch files of a series, from one.
pub struct PatchFormatter {
    generated: u32,
}

impl PatchFormatter {
    /// How many patch files were named so far.
    pub closed spec fn generated(&self) -> nat {
        self.generated as nat
    }

    /// No patch file is named yet.
    pub fn new() -> (r: Self)
        ensures
            r.generated() == 0,
    {
        PatchFormatter { generated: 0 }
    }

    /// Names the patch file of the next commit, whose message is `message`
    /// where it is valid UTF-8. The files are numbered from one, in the
    /// order of the commits. A commit without a usable message gets no
    /// number.
    pub fn generate(&mut self, message: Option<&str>) -> (r: Result<PatchHead, PatchFormatError>)
        requires
            old(self).generated() < u32::MAX,
        ensures
            match r {
                Ok(head) => {
                    &&& message matches Some(full)
                    &&& full@.len() > 0
                    &&& !crate::text::is_blank(full@)
                    &&& final(self).generated() == old(self).generated() + 1
                    &&& head.patch_name@ == format::patch_name(
                        format::summary_of(full@),
                        final(self).generated(),
                    )
                    &&& head.summary@ == format::summary_of(full@)
                    &&& head.body@ == format::body_of(full@)
                },
                Err(PatchFormatError::InvalidCommitMessage { cause }) => {
                    &&& final(self).generated() == old(self).generated()
                    &&& match message {
                        None => cause == format::InvalidCommitMessage::InvalidUtf8,
                        Some(full) => if full@.len() == 0 {
                            cause == format::InvalidCommitMessage::EmptyMessage
                        } else {
                            crate::text::is_blank(full@) && cause
                                == format::InvalidCommitMessage::BlankMessage
                        },
                    }
                },
                Err(PatchFormatError::PatchCleanupError { .. }) => false,
            },
    {
        let parsed = match format::CommitMessage::from_commit(message) {
            Ok(parsed) => parsed,
            Err(cause) => {
                return Err(PatchFormatError::InvalidCommitMessage { cause });
            },
        };
        self.generated = self.generated + 1;
        let summary = crate::text::str_chars(parsed.summary());
        let body = crate::text::str_chars(parsed.body());
        Ok(
            PatchHead {
                patch_name: parsed.patch_file_name(self.generated),
                summary: crate::text::string_of(summary.as_slice()),
                body: crate::text::string_of(body.as_slice()),
            },
        )
    }

    /// The text of the patch file `patch_name`, from the rendered patch
    /// `email`.
    pub fn finish(patch_name: &str, email: &[u8]) -> (r: Result<Vec<u8>, PatchFormatError>)
        ensures
            match r {
                Ok(text) => cleaned(email@) == Ok::<Seq<u8>, Seq<char>>(text@),
                Err(PatchFormatError::PatchCleanupError { patch_file, cause }) => {
                    &&& patch_file@ == patch_name@
                    &&& cause matches CleanupPatchErr::UnexpectedEof { expected }
                    &&& cleaned(email@) == Err::<Seq<u8>, Seq<char>>(expected@)
                },
                Err(PatchFormatError::InvalidCommitMessage { .. }) => false,
            },
    {
        match cleanup_patch(email) {
            Ok(text) => Ok(text),
            Err(cause) => {
                let name = crate::text::str_chars(patch_name);
                Err(
                    PatchFormatError::PatchCleanupError {
                        patch_file: crate::text::string_of(name.as_slice()),
                        cause,
                    },
                )
            },
        }
    }
}

} // verus!
