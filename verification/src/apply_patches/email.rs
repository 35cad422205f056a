//! A patch message: the commit that it describes, and the diff that it
//! carries.
use crate::apply_patches::diff::{
    buffer_records, diff_from_buffer, diff_len, diff_records, DeltaRecord,
};
use crate::apply_patches::header::{
    author_of, date_of, header_hash, is_diff_start, parse_author_line, parse_begin_diff_line,
    parse_date_line, parse_header_line, parse_subject_line, subject_of, AuthorInfo,
};
use crate::format_patches::format::newlines;
use crate::text::{char_lines, extend_chars, split_lines, str_chars, string_of, views_of};
use git2::Diff;
use time::format_description::well_known::Rfc2822;
use time::OffsetDateTime;
use vstd::prelude::*;
use vstd::string::*;

verus! {

/// `time::error::Parse`: why a text is no date.
#[verifier::external_type_specification]
#[verifier::external_body]
pub struct ExTimeParseError(time::error::Parse);

/// The instant that an RFC 2822 date names: the seconds since the Unix
/// epoch, and the minutes that its zone is ahead of UTC.
pub uninterp spec fn rfc2822_instant(date: Seq<char>) -> Option<(i64, i16)>;

/// Calls `OffsetDateTime::parse` with the format `Rfc2822`, and reads
/// `unix_timestamp` and the `whole_minutes` of the offset from the result.
#[verifier::external_body]
fn parse_rfc2822(date: &str) -> (r: Result<(i64, i16), time::error::Parse>)
    ensures
        r is Ok <==> rfc2822_instant(date@) is Some,
        r matches Ok(instant) ==> rfc2822_instant(date@) == Some(instant),
{
    OffsetDateTime::parse(date, &Rfc2822).map(|d| (d.unix_timestamp(), d.offset().whole_minutes()))
}

/// Why a text is no patch message.
#[derive(Debug)]
pub enum InvalidEmailMessage {
    /// The text ended before the line that `expected` describes.
    UnexpectedEof { expected: &'static str },
    /// The line `actual` stands where the line that `expected` describes
    /// should.
    InvalidHeader { expected: &'static str, actual: String },
    /// The date `actual` is none.
    InvalidDate { actual: String, cause: time::error::Parse },
    /// The text holds no diff that could be read.
    Git(git2::Error),
}

/// What the lines of a patch message say, apart from the diff.
pub struct MessageText {
    pub hash: Seq<char>,
    pub author_name: Seq<char>,
    pub author_email: Seq<char>,
    pub date: Seq<char>,
    pub summary: Seq<char>,
    pub tail: Seq<char>,
}

/// Why the lines of a text are not those of a patch message.
pub enum TextError {
    UnexpectedEof { expected: Seq<char> },
    InvalidHeader { expected: Seq<char>, actual: Seq<char> },
}

/// The lines without characters.
pub open spec fn empty_lines() -> spec_fn(Seq<char>) -> bool {
    |l: Seq<char>| l.len() == 0
}

/// The message ends at line `at`: the line is empty, and the next one
/// starts a diff.
pub open spec fn is_message_end(lines: Seq<Seq<char>>, at: int) -> bool {
    0 <= at && at + 1 < lines.len() && lines[at].len() == 0 && is_diff_start(lines[at + 1])
}

/// The index of the first line at or after `from` at which the message
/// ends, or the number of lines where there is none.
pub open spec fn message_end(lines: Seq<Seq<char>>, from: int) -> int
    decreases lines.len() - from,
{
    if from < 0 || from >= lines.len() {
        lines.len() as int
    } else if is_message_end(lines, from) {
        from
    } else {
        message_end(lines, from + 1)
    }
}

/// `message_end` is at `k` when the message ends nowhere between `from` and
/// `k` and ends at `k`, or `k` is the number of lines.
pub proof fn lemma_message_end(lines: Seq<Seq<char>>, from: int, k: int)
    requires
        0 <= from <= k <= lines.len(),
        forall|j: int| from <= j < k ==> !is_message_end(lines, j),
        k < lines.len() ==> is_message_end(lines, k),
    ensures
        message_end(lines, from) == k,
    decreases k - from,
{
    if from < k {
        lemma_message_end(lines, from + 1, k);
    }
}

/// The lines one after the other, with nothing between them.
pub open spec fn concat_lines(lines: Seq<Seq<char>>) -> Seq<char>
    decreases lines.len(),
{
    if lines.len() == 0 {
        Seq::<char>::empty()
    } else {
        concat_lines(lines.drop_last()) + lines.last()
    }
}

/// The lines one after the other, with a newline between them.
pub open spec fn join_with_newlines(lines: Seq<Seq<char>>) -> Seq<char>
    decreases lines.len(),
{
    if lines.len() == 0 {
        Seq::<char>::empty()
    } else if lines.len() == 1 {
        lines[0]
    } else {
        join_with_newlines(lines.drop_last()) + seq!['\n'] + lines.last()
    }
}

/// What the lines of a patch message say.
///
/// The first four lines name the hash, the author, the date and the
/// subject. The lines up to the next empty one continue the subject, and
/// together with it they are the summary, which is not empty. What follows,
/// up to the empty line before the first diff, is the rest of the message.
pub open spec fn message_text(lines: Seq<Seq<char>>) -> Result<MessageText, TextError> {
    if lines.len() < 1 {
        Err(TextError::UnexpectedEof { expected: "header"@ })
    } else if header_hash(lines[0]) is None {
        Err(TextError::InvalidHeader { expected: "header"@, actual: lines[0] })
    } else if lines.len() < 2 {
        Err(TextError::UnexpectedEof { expected: "author"@ })
    } else if author_of(lines[1]) is None {
        Err(TextError::InvalidHeader { expected: "author"@, actual: lines[1] })
    } else if lines.len() < 3 {
        Err(TextError::UnexpectedEof { expected: "date"@ })
    } else if date_of(lines[2]) is None {
        Err(TextError::InvalidHeader { expected: "date"@, actual: lines[2] })
    } else if lines.len() < 4 {
        Err(TextError::UnexpectedEof { expected: "subject"@ })
    } else if subject_of(lines[3]) is None {
        Err(TextError::InvalidHeader { expected: "subject"@, actual: lines[3] })
    } else {
        let blank = crate::utils::first_match(lines, 4, empty_lines());
        let end = message_end(lines, blank + 1);
        let summary = subject_of(lines[3])->0 + concat_lines(lines.subrange(4, blank));
        if blank >= lines.len() {
            Err(TextError::UnexpectedEof { expected: "diff after subject"@ })
        } else if summary.len() == 0 {
            Err(TextError::InvalidHeader { expected: "subject"@, actual: lines[3] })
        } else if end >= lines.len() {
            Err(TextError::UnexpectedEof { expected: "diff after message"@ })
        } else {
            Ok(
                MessageText {
                    hash: header_hash(lines[0])->0,
                    author_name: author_of(lines[1]).unwrap().0,
                    author_email: author_of(lines[1]).unwrap().1,
                    date: date_of(lines[2])->0,
                    summary,
                    tail: join_with_newlines(lines.subrange(blank + 1, end)),
                },
            )
        }
    }
}

/// Where the line `k` of `text` starts, counted from zero: behind the
/// `k`-th newline, or at the end of the text where it has fewer.
pub open spec fn line_start(text: Seq<char>, k: nat) -> int
    decreases k,
{
    if k == 0 {
        0
    } else {
        let end = crate::utils::first_match(text, line_start(text, (k - 1) as nat), newlines());
        if end >= text.len() {
            text.len() as int
        } else {
            end + 1
        }
    }
}

/// The diff section of a patch message: the text from the line behind the
/// empty line at which the message ends, which is the first line that
/// starts a diff.
pub open spec fn diff_section(text: Seq<char>) -> Seq<char> {
    let lines = char_lines(text);
    let blank = crate::utils::first_match(lines, 4, empty_lines());
    let end = message_end(lines, blank + 1);
    text.subrange(line_start(text, (end + 1) as nat), text.len() as int)
}

/// The text is a patch message: it has the lines of a patch message, names
/// a date of RFC 2822, and its diff section spells a diff.
pub open spec fn is_patch_message(text: Seq<char>) -> bool {
    &&& message_text(char_lines(text)) matches Ok(parts)
    &&& rfc2822_instant(parts.date) is Some
    &&& buffer_records(vstd::utf8::encode_utf8(diff_section(text))) is Some
}

/// A parsed patch message.
pub struct EmailMessage {
    timestamp: i64,
    offset_minutes: i16,
    message_summary: String,
    message_tail: String,
    author_name: String,
    author_email: String,
    origin: String,
    git_diff: Diff<'static>,
}

/// `r` is what parsing the text `text` comes to: the message that it
/// spells, or the first thing that is wrong with it. The lines are read
/// first, then the date, and the diff section last.
pub open spec fn is_parse_of(
    r: Result<EmailMessage, InvalidEmailMessage>,
    text: Seq<char>,
) -> bool {
    match r {
        Ok(m) => {
            &&& message_text(char_lines(text)) matches Ok(parts)
            &&& rfc2822_instant(parts.date) == Some(
                (m.spec_timestamp(), m.spec_offset_minutes()),
            )
            &&& buffer_records(vstd::utf8::encode_utf8(diff_section(text))) == Some(m.deltas())
            &&& m.spec_origin() == parts.hash
            &&& m.spec_author_name() == parts.author_name
            &&& m.spec_author_email() == parts.author_email
            &&& m.summary() == parts.summary
            &&& m.summary().len() > 0
            &&& m.tail() == parts.tail
        },
        Err(InvalidEmailMessage::UnexpectedEof { expected }) => message_text(char_lines(text))
            == Err::<MessageText, TextError>(TextError::UnexpectedEof { expected: expected@ }),
        Err(InvalidEmailMessage::InvalidHeader { expected, actual }) => message_text(
            char_lines(text),
        ) == Err::<MessageText, TextError>(
            TextError::InvalidHeader { expected: expected@, actual: actual@ },
        ),
        Err(InvalidEmailMessage::InvalidDate { actual, cause }) => {
            &&& message_text(char_lines(text)) matches Ok(parts)
            &&& parts.date == actual@
            &&& rfc2822_instant(parts.date) is None
        },
        Err(InvalidEmailMessage::Git(_)) => {
            &&& message_text(char_lines(text)) matches Ok(parts)
            &&& rfc2822_instant(parts.date) is Some
            &&& buffer_records(vstd::utf8::encode_utf8(diff_section(text))) is None
        },
    }
}

/// Where the line `k` of `text` starts.
pub fn line_offset(text: &[char], k: usize) -> (r: usize)
    ensures
        r == line_start(text@, k as nat),
        r <= text.len(),
{
    let mut pos: usize = 0;
    let mut j: usize = 0;
    while j < k
        invariant
            j <= k,
            pos <= text.len(),
            pos == line_start(text@, j as nat),
        decreases k - j,
    {
        let mut end: usize = pos;
        while end < text.len() && text[end] != '\n'
            invariant
                pos <= end <= text.len(),
                forall|q: int| pos <= q < end ==> !newlines()(#[trigger] text@[q]),
            decreases text.len() - end,
        {
            end += 1;
        }
        proof {
            crate::utils::lemma_first_match(text@, pos as int, newlines(), end as int);
        }
        pos = if end >= text.len() {
            text.len()
        } else {
            end + 1
        };
        j += 1;
    }
    pos
}

/// The line at `index`, where it has the form that `parse_func` knows, and
/// else the error that names what was `expected`.
pub fn match_header_line<T, F: Fn(&Vec<char>) -> Option<T>>(
    lines: &Vec<Vec<char>>,
    index: usize,
    expected: &'static str,
    parse_func: F,
) -> (r: Result<T, InvalidEmailMessage>)
    requires
        forall|l: &Vec<char>| call_requires(parse_func, (l,)),
    ensures
        match r {
            Ok(value) => index < lines.len() && call_ensures(
                parse_func,
                (&lines[index as int],),
                Some(value),
            ),
            Err(InvalidEmailMessage::UnexpectedEof { expected: e }) => index >= lines.len() && e
                == expected,
            Err(InvalidEmailMessage::InvalidHeader { expected: e, actual }) => index < lines.len()
                && e == expected && actual@ == lines[index as int]@ && call_ensures(
                parse_func,
                (&lines[index as int],),
                None,
            ),
            Err(_) => false,
        },
{
    if index >= lines.len() {
        return Err(InvalidEmailMessage::UnexpectedEof { expected });
    }
    match parse_func(&lines[index]) {
        Some(value) => Ok(value),
        None => Err(
            InvalidEmailMessage::InvalidHeader {
                expected,
                actual: string_of(lines[index].as_slice()),
            },
        ),
    }
}

impl EmailMessage {
    /// The seconds since the Unix epoch at which the commit was written.
    pub closed spec fn spec_timestamp(&self) -> i64 {
        self.timestamp
    }

    /// The minutes that the author's time zone is ahead of UTC.
    pub closed spec fn spec_offset_minutes(&self) -> i16 {
        self.offset_minutes
    }

    /// The first line of the commit message.
    pub closed spec fn summary(&self) -> Seq<char> {
        self.message_summary@
    }

    /// The commit message behind its first line.
    pub closed spec fn tail(&self) -> Seq<char> {
        self.message_tail@
    }

    /// The author's name.
    pub closed spec fn spec_author_name(&self) -> Seq<char> {
        self.author_name@
    }

    /// The author's address.
    pub closed spec fn spec_author_email(&self) -> Seq<char> {
        self.author_email@
    }

    /// The hash of the commit that the message was made from.
    pub closed spec fn spec_origin(&self) -> Seq<char> {
        self.origin@
    }

    /// The file-level changes, in the order of the diff.
    pub closed spec fn deltas(&self) -> Seq<DeltaRecord> {
        diff_records(self.git_diff)
    }

    /// The message that the text `msg` spells.
    ///
    /// The text must have the lines of a patch message and name a date of
    /// RFC 2822, and what follows the message, from the first line that
    /// starts a diff, must spell a diff; the first of these that fails is
    /// the error.
    pub fn parse(msg: &str) -> (r: Result<Self, InvalidEmailMessage>)
        ensures
            r is Ok <==> is_patch_message(msg@),
            is_parse_of(r, msg@),
    {
        let text = str_chars(msg);
        let lines = split_lines(text.as_slice());
        let ghost ls = views_of(lines@);
        assert(ls.len() == lines.len());
        assert(forall|k: int| 0 <= k < ls.len() ==> #[trigger] ls[k] == lines[k]@);
        let origin = match match_header_line(&lines, 0, "header", parse_header_line) {
            Ok(hash) => hash,
            Err(e) => {
                return Err(e);
            },
        };
        let author = match match_header_line(&lines, 1, "author", parse_author_line) {
            Ok(author) => author,
            Err(e) => {
                return Err(e);
            },
        };
        let to_string = |part: Vec<char>| -> (s: String)
            ensures
                s@ == part@
            { string_of(part.as_slice()) };
        let author: AuthorInfo<String> = author.map(to_string);
        let date = match match_header_line(&lines, 2, "date", parse_date_line) {
            Ok(date) => date,
            Err(e) => {
                return Err(e);
            },
        };
        let mut summary = match match_header_line(&lines, 3, "subject", parse_subject_line) {
            Ok(subject) => subject,
            Err(e) => {
                return Err(e);
            },
        };
        // Lines that continue the subject are joined to it as they are.
        let mut i: usize = 4;
        loop
            invariant
                4 <= i <= lines.len(),
                ls == views_of(lines@),
                ls == char_lines(msg@),
                header_hash(ls[0]) is Some,
                author_of(ls[1]) is Some,
                date_of(ls[2]) is Some,
                subject_of(ls[3]) is Some,
                forall|k: int| 4 <= k < i ==> !empty_lines()(#[trigger] ls[k]),
                summary@ == subject_of(ls[3])->0 + concat_lines(ls.subrange(4, i as int)),
            ensures
                4 <= i < lines.len(),
                i == crate::utils::first_match(ls, 4, empty_lines()),
                summary@ == subject_of(ls[3])->0 + concat_lines(ls.subrange(4, i as int)),
            decreases lines.len() - i,
        {
            if i >= lines.len() {
                proof {
                    crate::utils::lemma_first_match(ls, 4, empty_lines(), i as int);
                }
                return Err(InvalidEmailMessage::UnexpectedEof { expected: "diff after subject" });
            }
            let line = &lines[i];
            assert(ls[i as int] == line@);
            if line.len() == 0 {
                proof {
                    crate::utils::lemma_first_match(ls, 4, empty_lines(), i as int);
                }
                break;
            }
            extend_chars(&mut summary, line.as_slice());
            proof {
                assert(ls.subrange(4, i + 1).drop_last() =~= ls.subrange(4, i as int));
                assert(summary@ =~= subject_of(ls[3])->0 + concat_lines(ls.subrange(4, i + 1)));
            }
            i += 1;
        }
        if summary.len() == 0 {
            return Err(
                InvalidEmailMessage::InvalidHeader {
                    expected: "subject",
                    actual: string_of(lines[3].as_slice()),
                },
            );
        }
        let ghost blank = i as int;
        i += 1;
        let first = i;
        // The rest of the message ends at the empty line before the diff.
        let mut tail: Vec<char> = Vec::new();
        loop
            invariant
                4 <= blank < i <= lines.len(),
                first == blank + 1,
                ls == views_of(lines@),
                ls == char_lines(msg@),
                header_hash(ls[0]) is Some,
                author_of(ls[1]) is Some,
                date_of(ls[2]) is Some,
                subject_of(ls[3]) is Some,
                blank == crate::utils::first_match(ls, 4, empty_lines()),
                summary@ == subject_of(ls[3])->0 + concat_lines(ls.subrange(4, blank)),
                summary@.len() > 0,
                forall|k: int| blank < k < i ==> !is_message_end(ls, k),
                tail@ == join_with_newlines(ls.subrange(blank + 1, i as int)),
            ensures
                blank < i < lines.len(),
                i == message_end(ls, blank + 1),
                tail@ == join_with_newlines(ls.subrange(blank + 1, i as int)),
            decreases lines.len() - i,
        {
            if i >= lines.len() {
                proof {
                    lemma_message_end(ls, blank + 1, i as int);
                }
                return Err(InvalidEmailMessage::UnexpectedEof { expected: "diff after message" });
            }
            let line = &lines[i];
            assert(ls[i as int] == line@);
            if line.len() == 0 && i + 1 < lines.len() && parse_begin_diff_line(&lines[i + 1]) {
                proof {
                    assert(ls[i + 1] == lines[i + 1]@);
                    lemma_message_end(ls, blank + 1, i as int);
                }
                break;
            }
            if i > first {
                tail.push('\n');
            }
            extend_chars(&mut tail, line.as_slice());
            proof {
                assert(ls.subrange(blank + 1, i + 1).drop_last() =~= ls.subrange(
                    blank + 1,
                    i as int,
                ));
                assert(tail@ =~= join_with_newlines(ls.subrange(blank + 1, i + 1)));
            }
            i += 1;
        }
        let date_text = string_of(date.as_slice());
        let (timestamp, offset_minutes) = match parse_rfc2822(date_text.as_str()) {
            Ok(instant) => instant,
            Err(cause) => {
                return Err(InvalidEmailMessage::InvalidDate { actual: date_text, cause });
            },
        };
        // The diff is what follows the empty line at which the message ends.
        let section = string_of(
            vstd::slice::slice_subrange(text.as_slice(), line_offset(text.as_slice(), i + 1), text.len()),
        );
        let git_diff = match diff_from_buffer(section.as_str().as_bytes()) {
            Ok(diff) => diff,
            Err(e) => {
                return Err(InvalidEmailMessage::Git(e));
            },
        };
        Ok(
            EmailMessage {
                timestamp,
                offset_minutes,
                message_summary: string_of(summary.as_slice()),
                message_tail: string_of(tail.as_slice()),
                author_name: author.name,
                author_email: author.email,
                origin: string_of(origin.as_slice()),
                git_diff,
            },
        )
    }

    /// The commit message as a whole.
    pub open spec fn full_text(&self) -> Seq<char> {
        if self.tail().len() == 0 {
            self.summary()
        } else {
            self.summary() + seq!['\n', '\n'] + self.tail()
        }
    }

    /// The commit message: the summary, and behind an empty line the rest,
    /// where there is any.
    pub fn full_message(&self) -> (r: String)
        ensures
            r@ == self.full_text(),
    {
        let mut message = self.message_summary.clone();
        if self.message_tail.as_str().unicode_len() > 0 {
            crate::text::push_char(&mut message, '\n');
            crate::text::push_char(&mut message, '\n');
            let tail = str_chars(self.message_tail.as_str());
            crate::format_patches::format::append_chars(&mut message, tail.as_slice());
            assert(message@ =~= self.summary() + seq!['\n', '\n'] + self.tail());
        }
        message
    }

    /// The seconds since the Unix epoch at which the commit was written.
    pub fn timestamp(&self) -> (r: i64)
        ensures
            r == self.spec_timestamp(),
    {
        self.timestamp
    }

    /// The minutes that the author's time zone is ahead of UTC.
    pub fn offset_minutes(&self) -> (r: i16)
        ensures
            r == self.spec_offset_minutes(),
    {
        self.offset_minutes
    }

    /// The author's name.
    pub fn author_name(&self) -> (r: &str)
        ensures
            r@ == self.spec_author_name(),
    {
        self.author_name.as_str()
    }

    /// The author's address.
    pub fn author_email(&self) -> (r: &str)
        ensures
            r@ == self.spec_author_email(),
    {
        self.author_email.as_str()
    }

    /// The hash of the commit that the message was made from. It is kept
    /// for the record and stands for nothing in the target repository.
    pub fn origin(&self) -> (r: &str)
        ensures
            r@ == self.spec_origin(),
    {
        self.origin.as_str()
    }

    /// The first line of the commit message.
    pub fn message_summary(&self) -> (r: &str)
        ensures
            r@ == self.summary(),
    {
        self.message_summary.as_str()
    }

    /// The commit message behind its first line.
    pub fn message_tail(&self) -> (r: &str)
        ensures
            r@ == self.tail(),
    {
        self.message_tail.as_str()
    }

    /// The diff that the message carries.
    pub(crate) fn diff(&self) -> (r: &Diff<'static>)
        ensures
            diff_records(*r) == self.deltas(),
    {
        &self.git_diff
    }

    /// The number of file-level changes.
    pub fn delta_count(&self) -> (n: usize)
        ensures
            n == self.deltas().len(),
    {
        diff_len(&self.git_diff)
    }
}

} // verus!
