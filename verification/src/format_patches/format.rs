//! The message of a commit, and the name of the patch file made from it.
use crate::text::{
    copy_range, is_blank, lemma_trim_properties, lemma_ws_run_end_bounds, push_char,
    str_chars, trim, trim_bounds, ws_run_end,
};
use crate::utils::{first_match, lemma_first_match};
use vstd::prelude::*;
use vstd::string::*;

verus! {

/// Why a text is no commit message.
#[derive(Debug, Clone, Copy, PartialEq, Eq)]
pub enum InvalidCommitMessage {
    /// The message is not valid UTF-8.
    InvalidUtf8,
    /// The message has no characters at all.
    EmptyMessage,
    /// The message holds white space only.
    BlankMessage,
}

/// The characters that end a line.
pub open spec fn newlines() -> spec_fn(char) -> bool {
    |c: char| c == '\n'
}

/// Where the first line of `s` ends: at its first newline, or at its end.
pub open spec fn first_line_end(s: Seq<char>) -> int {
    first_match(s, 0, newlines())
}

/// The summary of the message `s`: its first line, from the first character
/// of the message that is not white space. It is empty where that character
/// stands behind the first line.
pub open spec fn summary_of(s: Seq<char>) -> Seq<char> {
    if ws_run_end(s, 0) <= first_line_end(s) {
        s.subrange(ws_run_end(s, 0), first_line_end(s))
    } else {
        Seq::<char>::empty()
    }
}

/// The body of the message `s`: what follows the first line, trimmed.
pub open spec fn body_of(s: Seq<char>) -> Seq<char> {
    trim(s.subrange(first_line_end(s), s.len() as int))
}

/// A commit message, split into its summary and its body.
#[derive(Debug)]
pub struct CommitMessage<'a> {
    full: &'a str,
    summary_start: usize,
    summary_end: usize,
    body_start: usize,
    body_end: usize,
}

impl<'a> CommitMessage<'a> {
    /// The ranges lie within the text, in order.
    pub closed spec fn wf(&self) -> bool {
        &&& self.summary_start <= self.summary_end <= self.full@.len()
        &&& self.body_start <= self.body_end <= self.full@.len()
    }

    /// The whole message.
    pub closed spec fn full_text(&self) -> Seq<char> {
        self.full@
    }

    /// The summary line.
    pub closed spec fn summary_text(&self) -> Seq<char> {
        self.full@.subrange(self.summary_start as int, self.summary_end as int)
    }

    /// The body.
    pub closed spec fn body_text(&self) -> Seq<char> {
        self.full@.subrange(self.body_start as int, self.body_end as int)
    }

    /// The whole message.
    pub fn full(&self) -> (r: &'a str)
        ensures
            r@ == self.full_text(),
    {
        self.full
    }

    /// The summary line.
    pub fn summary(&self) -> (r: &'a str)
        requires
            self.wf(),
        ensures
            r@ == self.summary_text(),
    {
        self.full.substring_char(self.summary_start, self.summary_end)
    }

    /// The body.
    pub fn body(&self) -> (r: &'a str)
        requires
            self.wf(),
        ensures
            r@ == self.body_text(),
    {
        self.full.substring_char(self.body_start, self.body_end)
    }

    /// Splits the message `full`. An empty message and one of white space
    /// only are refused.
    pub fn parse(full: &'a str) -> (r: Result<Self, InvalidCommitMessage>)
        ensures
            match r {
                Ok(m) => {
                    &&& full@.len() > 0
                    &&& !is_blank(full@)
                    &&& m.wf()
                    &&& m.full_text() == full@
                    &&& m.summary_text() == summary_of(full@)
                    &&& m.body_text() == body_of(full@)
                },
                Err(InvalidCommitMessage::EmptyMessage) => full@.len() == 0,
                Err(InvalidCommitMessage::BlankMessage) => full@.len() > 0 && is_blank(full@),
                Err(InvalidCommitMessage::InvalidUtf8) => false,
            },
    {
        let chars = str_chars(full);
        let text = chars.as_slice();
        if text.len() == 0 {
            return Err(InvalidCommitMessage::EmptyMessage);
        }
        let (summary_start, _) = trim_bounds(text);
        proof {
            lemma_trim_properties(text@);
            lemma_ws_run_end_bounds(text@, 0);
        }
        if summary_start == text.len() {
            return Err(InvalidCommitMessage::BlankMessage);
        }
        let mut summary_end: usize = 0;
        while summary_end < text.len() && text[summary_end] != '\n'
            invariant
                summary_end <= text.len(),
                forall|j: int| 0 <= j < summary_end ==> !newlines()(#[trigger] text@[j]),
            decreases text.len() - summary_end,
        {
            summary_end += 1;
        }
        proof {
            lemma_first_match(text@, 0, newlines(), summary_end as int);
        }
        let tail = vstd::slice::slice_subrange(text, summary_end, text.len());
        let (a, b) = trim_bounds(tail);
        let ghost start = if summary_start <= summary_end {
            summary_start
        } else {
            summary_end
        };
        let m = CommitMessage {
            full,
            summary_start: if summary_start <= summary_end {
                summary_start
            } else {
                summary_end
            },
            summary_end,
            body_start: summary_end + a,
            body_end: summary_end + b,
        };
        proof {
            assert(m.body_text() =~= tail@.subrange(a as int, b as int));
            assert(m.summary_text() =~= summary_of(full@));
        }
        Ok(m)
    }

    /// The message of a commit, where the commit's text is valid UTF-8 and
    /// `message` therefore holds it.
    pub fn from_commit(message: Option<&'a str>) -> (r: Result<Self, InvalidCommitMessage>)
        ensures
            match r {
                Ok(m) => {
                    &&& message matches Some(full)
                    &&& full@.len() > 0
                    &&& !is_blank(full@)
                    &&& m.wf()
                    &&& m.full_text() == full@
                    &&& m.summary_text() == summary_of(full@)
                    &&& m.body_text() == body_of(full@)
                },
                Err(InvalidCommitMessage::InvalidUtf8) => message is None,
                Err(InvalidCommitMessage::EmptyMessage) => {
                    &&& message matches Some(full)
                    &&& full@.len() == 0
                },
                Err(InvalidCommitMessage::BlankMessage) => {
                    &&& message matches Some(full)
                    &&& full@.len() > 0
                    &&& is_blank(full@)
                },
            },
    {
        match message {
            Some(full) => Self::parse(full),
            None => Err(InvalidCommitMessage::InvalidUtf8),
        }
    }

    /// The name of the patch file for this commit, the `patch_no`-th of its
    /// series.
    pub fn patch_file_name(&self, patch_no: u32) -> (r: String)
        requires
            self.wf(),
            patch_no >= 1,
        ensures
            r@ == patch_name(self.summary_text(), patch_no as nat),
    {
        let summary = str_chars(self.summary());
        let name = sanitize(summary.as_slice());
        let mut r = String::new();
        let number = decimal_digits(patch_no as u128);
        let mut pad: usize = number.len();
        while pad < 4
            invariant
                number.len() <= pad,
                pad <= 4 || pad == number.len(),
                r@ == Seq::new((pad - number.len()) as nat, |i: int| '0'),
            decreases 4 - pad,
        {
            push_char(&mut r, '0');
            pad += 1;
            assert(r@ =~= Seq::new((pad - number.len()) as nat, |i: int| '0'));
        }
        assert(r@ =~= zeros(4, number@.len()));
        append_chars(&mut r, number.as_slice());
        push_char(&mut r, '-');
        let kept = if name.len() > MAX_NAME_LENGTH {
            MAX_NAME_LENGTH
        } else {
            name.len()
        };
        append_chars(&mut r, vstd::slice::slice_subrange(name.as_slice(), 0, kept));
        let suffix = str_chars(".patch");
        append_chars(&mut r, suffix.as_slice());
        r
    }
}

/// The longest name that a summary contributes to a file name.
pub const MAX_NAME_LENGTH: usize = 52;

/// A character that a file name takes over from the summary.
pub open spec fn is_name_char(c: char) -> bool {
    ('a' <= c <= 'z') || ('A' <= c <= 'Z') || ('0' <= c <= '9') || c == '.' || c == '_'
}

/// A character that is dropped from either end of the name.
pub open spec fn is_edge_char(c: char) -> bool {
    c == '-' || c == '.'
}

/// The characters of `s` from index `i` on, added to `acc`: name characters
/// as they are, an empty pair of parentheses not at all, and each run of
/// other characters as one `-`.
pub open spec fn collapse_from(s: Seq<char>, i: int, acc: Seq<char>) -> Seq<char>
    decreases s.len() - i,
{
    if i < 0 || i >= s.len() {
        acc
    } else if is_name_char(s[i]) {
        collapse_from(s, i + 1, acc.push(s[i]))
    } else if s[i] == '(' && i + 1 < s.len() && s[i + 1] == ')' {
        collapse_from(s, i + 2, acc)
    } else if acc.len() > 0 && acc.last() == '-' {
        collapse_from(s, i + 1, acc)
    } else {
        collapse_from(s, i + 1, acc.push('-'))
    }
}

/// The end of the run of edge characters that starts at `i`.
pub open spec fn edge_run_end(s: Seq<char>, i: int) -> int
    decreases s.len() - i,
{
    if 0 <= i < s.len() && is_edge_char(s[i]) {
        edge_run_end(s, i + 1)
    } else {
        i
    }
}

/// The start of the run of edge characters that ends before `j`.
pub open spec fn edge_run_start(s: Seq<char>, j: int) -> int
    decreases j,
{
    if 0 < j <= s.len() && is_edge_char(s[j - 1]) {
        edge_run_start(s, j - 1)
    } else {
        j
    }
}

/// `s` without the `-` and `.` at its ends.
pub open spec fn strip_edges(s: Seq<char>) -> Seq<char> {
    if edge_run_end(s, 0) >= s.len() {
        Seq::<char>::empty()
    } else {
        s.subrange(edge_run_end(s, 0), edge_run_start(s, s.len() as int))
    }
}

/// The part of a file name that stands for `summary`, before it is cut to
/// length.
pub open spec fn sanitized(summary: Seq<char>) -> Seq<char> {
    strip_edges(collapse_from(summary, 0, Seq::<char>::empty()))
}

/// The decimal digit `d`.
pub open spec fn digit_char(d: nat) -> char {
    if d == 0 {
        '0'
    } else if d == 1 {
        '1'
    } else if d == 2 {
        '2'
    } else if d == 3 {
        '3'
    } else if d == 4 {
        '4'
    } else if d == 5 {
        '5'
    } else if d == 6 {
        '6'
    } else if d == 7 {
        '7'
    } else if d == 8 {
        '8'
    } else {
        '9'
    }
}

/// `n` in decimal digits.
pub open spec fn decimal(n: nat) -> Seq<char>
    decreases n,
{
    if n < 10 {
        seq![digit_char(n)]
    } else {
        decimal(n / 10).push(digit_char(n % 10))
    }
}

/// As many zeros as a number of `len` digits lacks to `width`.
pub open spec fn zeros(width: nat, len: nat) -> Seq<char> {
    if len >= width {
        Seq::<char>::empty()
    } else {
        Seq::new((width - len) as nat, |i: int| '0')
    }
}

/// The name of the `n`-th patch file, for a commit with the given summary:
/// `n` in at least four digits, a `-`, at most `MAX_NAME_LENGTH` characters
/// of the sanitized summary, and `.patch`.
pub open spec fn patch_name(summary: Seq<char>, n: nat) -> Seq<char> {
    let name = sanitized(summary);
    let kept = if name.len() > MAX_NAME_LENGTH {
        name.take(MAX_NAME_LENGTH as int)
    } else {
        name
    };
    zeros(4, decimal(n).len()) + decimal(n) + seq!['-'] + kept + ".patch"@
}

/// Appends the characters of `more` to `s`.
pub fn append_chars(s: &mut String, more: &[char])
    ensures
        final(s)@ == old(s)@ + more@,
{
    let mut i: usize = 0;
    while i < more.len()
        invariant
            i <= more.len(),
            s@ == old(s)@ + more@.take(i as int),
        decreases more.len() - i,
    {
        push_char(s, more[i]);
        assert((old(s)@ + more@.take(i as int)).push(more@[i as int]) =~= old(s)@ + more@.take(
            i + 1,
        ));
        i += 1;
    }
    assert(more@.take(more.len() as int) =~= more@);
}

/// The decimal digit `d`.
fn digit(d: u128) -> (c: char)
    requires
        d < 10,
    ensures
        c == digit_char(d as nat),
{
    if d == 0 {
        '0'
    } else if d == 1 {
        '1'
    } else if d == 2 {
        '2'
    } else if d == 3 {
        '3'
    } else if d == 4 {
        '4'
    } else if d == 5 {
        '5'
    } else if d == 6 {
        '6'
    } else if d == 7 {
        '7'
    } else if d == 8 {
        '8'
    } else {
        '9'
    }
}

/// `n` in decimal digits.
pub fn decimal_digits(n: u128) -> (r: Vec<char>)
    ensures
        r@ == decimal(n as nat),
        r@.len() >= 1,
    decreases n,
{
    if n < 10 {
        let mut r: Vec<char> = Vec::new();
        r.push(digit(n));
        r
    } else {
        let mut r = decimal_digits(n / 10);
        r.push(digit(n % 10));
        r
    }
}

/// Whether a file name takes `c` over from the summary.
pub fn name_char(c: char) -> (r: bool)
    ensures
        r == is_name_char(c),
{
    ('a' <= c && c <= 'z') || ('A' <= c && c <= 'Z') || ('0' <= c && c <= '9') || c == '.' || c
        == '_'
}

/// The part of a file name that stands for `summary`, before it is cut to
/// length.
pub fn sanitize(summary: &[char]) -> (r: Vec<char>)
    ensures
        r@ == sanitized(summary@),
{
    let mut acc: Vec<char> = Vec::new();
    let mut i: usize = 0;
    while i < summary.len()
        invariant
            i <= summary.len(),
            collapse_from(summary@, 0, Seq::<char>::empty()) == collapse_from(
                summary@,
                i as int,
                acc@,
            ),
        decreases summary.len() - i,
    {
        let c = summary[i];
        if name_char(c) {
            acc.push(c);
            i += 1;
        } else if c == '(' && i + 1 < summary.len() && summary[i + 1] == ')' {
            i += 2;
        } else {
            if !(acc.len() > 0 && acc[acc.len() - 1] == '-') {
                acc.push('-');
            }
            i += 1;
        }
    }
    let mut a: usize = 0;
    while a < acc.len() && (acc[a] == '-' || acc[a] == '.')
        invariant
            a <= acc.len(),
            edge_run_end(acc@, 0) == edge_run_end(acc@, a as int),
        decreases acc.len() - a,
    {
        a += 1;
    }
    if a == acc.len() {
        return Vec::new();
    }
    let mut b: usize = acc.len();
    while b > 0 && (acc[b - 1] == '-' || acc[b - 1] == '.')
        invariant
            b <= acc.len(),
            edge_run_start(acc@, acc.len() as int) == edge_run_start(acc@, b as int),
            a < acc.len(),
            !is_edge_char(acc@[a as int]),
        decreases b,
    {
        b -= 1;
    }
    proof {
        if b <= a {
            assert(b == 0 || !is_edge_char(acc@[b - 1]));
            lemma_edge_run_start_covers(acc@, acc.len() as int, a as int);
        }
    }
    copy_range(acc.as_slice(), a, b)
}

/// A character that is no edge character stands before the trailing run.
proof fn lemma_edge_run_start_covers(s: Seq<char>, j: int, a: int)
    requires
        0 <= a < j <= s.len(),
        !is_edge_char(s[a]),
    ensures
        a < edge_run_start(s, j),
    decreases j,
{
    if is_edge_char(s[j - 1]) {
        lemma_edge_run_start_covers(s, j - 1, a);
    }
}

} // verus!
