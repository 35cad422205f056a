//! A bounded memory of the last lines of a stream, and a cursor over the
//! lines of a text.
use crate::text::{blank, byte_lines, copy_range, has_prefix, is_blank, trim, views_of};
use arrayvec::ArrayVec;
use bstr::ByteSlice;
use vstd::prelude::*;
use vstd::utf8::{decode_utf8, valid_utf8};

verus! {

/// `arrayvec::ArrayVec`, a vector with a capacity fixed by its type.
#[verifier::external_type_specification]
#[verifier::external_body]
#[verifier::reject_recursive_types(T)]
pub struct ExArrayVec<T, const CAP: usize>(ArrayVec<T, CAP>);

/// The lines that an `ArrayVec` of lines holds, first to last.
pub uninterp spec fn held_lines(v: ArrayVec<Vec<char>, 5>) -> Seq<Seq<char>>;

/// `ArrayVec::new`: an empty vector.
#[verifier::external_body]
fn lines_new() -> (v: ArrayVec<Vec<char>, 5>)
    ensures
        held_lines(v) == Seq::<Seq<char>>::empty(),
{
    ArrayVec::new()
}

/// `ArrayVec::len`: the number of elements, which never exceeds the
/// capacity.
#[verifier::external_body]
fn lines_len(v: &ArrayVec<Vec<char>, 5>) -> (n: usize)
    ensures
        n == held_lines(*v).len(),
        n <= 5,
{
    v.len()
}

/// `ArrayVec::push`: appends `line`. It panics on a full vector, which the
/// precondition excludes.
#[verifier::external_body]
fn lines_push(v: &mut ArrayVec<Vec<char>, 5>, line: Vec<char>)
    requires
        held_lines(*old(v)).len() < 5,
    ensures
        held_lines(*final(v)) == held_lines(*old(v)).push(line@),
{
    v.push(line)
}

/// `ArrayVec::pop`: removes the last element, if there is one.
#[verifier::external_body]
fn lines_pop(v: &mut ArrayVec<Vec<char>, 5>) -> (r: Option<Vec<char>>)
    ensures
        held_lines(*old(v)).len() == 0 ==> r is None && held_lines(*final(v)) == held_lines(
            *old(v),
        ),
        held_lines(*old(v)).len() > 0 ==> r is Some && r->0@ == held_lines(*old(v)).last()
            && held_lines(*final(v)) == held_lines(*old(v)).drop_last(),
{
    v.pop()
}

/// `rotate_left` on the vector's elements (`ArrayVec::as_mut_slice`, then
/// the slice method): the first `mid` elements move behind the others. The
/// slice method panics when `mid` exceeds the length.
#[verifier::external_body]
fn lines_rotate_left(v: &mut ArrayVec<Vec<char>, 5>, mid: usize)
    requires
        mid <= held_lines(*old(v)).len(),
    ensures
        held_lines(*final(v)) == held_lines(*old(v)).subrange(
            mid as int,
            held_lines(*old(v)).len() as int,
        ) + held_lines(*old(v)).subrange(0, mid as int),
{
    v.as_mut_slice().rotate_left(mid)
}

/// `ArrayVec::as_slice`: the elements, first to last.
#[verifier::external_body]
fn lines_as_slice(v: &ArrayVec<Vec<char>, 5>) -> (s: &[Vec<char>])
    ensures
        views_of(s@) == held_lines(*v),
{
    v.as_slice()
}

/// The last `n` elements of `s`, or all of `s` where it has fewer.
pub open spec fn keep_last<T>(s: Seq<T>, n: nat) -> Seq<T> {
    if s.len() <= n {
        s
    } else {
        s.subrange(s.len() - n, s.len() as int)
    }
}

/// Keeping the last `n` at every step gives the last `n` of the whole.
pub proof fn lemma_keep_last_push<T>(s: Seq<T>, x: T, n: nat)
    ensures
        keep_last(keep_last(s, n).push(x), n) == keep_last(s.push(x), n),
{
    assert(keep_last(keep_last(s, n).push(x), n) =~= keep_last(s.push(x), n));
}

/// How many lines a `RememberLast` holds at most.
pub const REMEMBER_LIMIT: usize = 5;

/// The last lines of a stream, oldest first, at most `REMEMBER_LIMIT` of
/// them.
pub struct RememberLast {
    last: ArrayVec<Vec<char>, 5>,
}

impl View for RememberLast {
    type V = Seq<Seq<char>>;

    closed spec fn view(&self) -> Seq<Seq<char>> {
        held_lines(self.last)
    }
}

impl RememberLast {
    /// Remembers nothing yet.
    pub fn new() -> (r: Self)
        ensures
            r@ == Seq::<Seq<char>>::empty(),
    {
        RememberLast { last: lines_new() }
    }

    /// Remembers `element` as the newest line, and forgets the oldest one
    /// when the limit is exceeded.
    pub fn remember(&mut self, element: &Vec<char>)
        ensures
            final(self)@ == keep_last(old(self)@.push(element@), REMEMBER_LIMIT as nat),
            final(self)@.len() <= REMEMBER_LIMIT,
    {
        let line = copy_range(element.as_slice(), 0, element.len());
        assert(line@ =~= element@);
        if lines_len(&self.last) < REMEMBER_LIMIT {
            lines_push(&mut self.last, line);
        } else {
            let ghost before = self@;
            lines_rotate_left(&mut self.last, 1);
            lines_pop(&mut self.last);
            lines_push(&mut self.last, line);
            assert(self@ =~= keep_last(before.push(element@), REMEMBER_LIMIT as nat));
        }
    }

    /// The line remembered `offset` lines before the newest one.
    pub fn back(&self, offset: usize) -> (r: &Vec<char>)
        requires
            offset < self@.len(),
        ensures
            r@ == self@[self@.len() - offset - 1],
    {
        let s = lines_as_slice(&self.last);
        assert(views_of(s@).len() == s@.len());
        let r = &s[s.len() - offset - 1];
        assert(views_of(s@)[s@.len() - offset - 1] == r@);
        r
    }

    /// The remembered lines, oldest first.
    pub fn as_slice(&self) -> (r: &[Vec<char>])
        ensures
            views_of(r@) == self@,
    {
        lines_as_slice(&self.last)
    }

    /// The number of remembered lines.
    pub fn len(&self) -> (n: usize)
        ensures
            n == self@.len(),
            n <= REMEMBER_LIMIT,
    {
        lines_len(&self.last)
    }
}

/// The text ended where a line was expected.
#[derive(Debug, Clone, Copy, PartialEq, Eq)]
pub struct UnexpectedEof;

/// The lines of `s` as `bstr` splits them.
///
/// Calls `ByteSlice::lines`, which ends a line at `\n` or `\r\n`, leaves
/// the terminator out, and does not ask the last line to have one.
#[verifier::external_body]
fn bstr_lines(s: &[u8]) -> (r: Vec<Vec<u8>>)
    ensures
        views_of(r@) == byte_lines(s@),
{
    s.lines().map(|line| line.to_vec()).collect()
}

/// The characters that `bstr` decodes from `s`.
pub uninterp spec fn decoded_chars(s: Seq<u8>) -> Seq<char>;

/// Calls `ByteSlice::chars`, which decodes UTF-8 and yields the replacement
/// character for what is not valid. Of valid UTF-8 it yields the characters
/// that the bytes encode.
#[verifier::external_body]
fn bstr_chars(s: &[u8]) -> (r: Vec<char>)
    ensures
        r@ == decoded_chars(s@),
        valid_utf8(s@) ==> r@ == decode_utf8(s@),
{
    s.chars().collect()
}

/// `s` without the white space that `bstr` finds at its ends.
pub uninterp spec fn trimmed_bytes(s: Seq<u8>) -> Seq<u8>;

/// Calls `ByteSlice::trim`, which removes leading and trailing white space
/// as the Unicode property `White_Space` defines it. Of valid UTF-8 what is
/// left is valid UTF-8, and spells the trimmed text.
#[verifier::external_body]
pub(crate) fn bstr_trim(s: &[u8]) -> (r: Vec<u8>)
    ensures
        r@ == trimmed_bytes(s@),
        valid_utf8(s@) ==> valid_utf8(r@) && decode_utf8(r@) == trim(decode_utf8(s@)),
{
    s.trim().to_vec()
}

/// A line of bytes that decodes to white space only.
pub open spec fn is_blank_line(line: Seq<u8>) -> bool {
    is_blank(decoded_chars(line))
}

/// The lines that hold more than white space.
pub open spec fn not_blank() -> spec_fn(Seq<u8>) -> bool {
    |l: Seq<u8>| !is_blank_line(l)
}

/// Whether `line` decodes to white space only.
pub fn blank_line(line: &Vec<u8>) -> (r: bool)
    ensures
        r == is_blank_line(line@),
{
    let chars = bstr_chars(line.as_slice());
    blank(chars.as_slice())
}

/// Whether `s` begins with `p`.
pub fn bytes_start_with(s: &[u8], p: &[u8]) -> (r: bool)
    ensures
        r == has_prefix(s@, p@),
{
    if p.len() > s.len() {
        return false;
    }
    let mut k: usize = 0;
    while k < p.len()
        invariant
            k <= p.len() <= s.len(),
            forall|j: int| 0 <= j < k ==> s@[j] == p@[j],
        decreases p.len() - k,
    {
        if s[k] != p[k] {
            assert(s@.subrange(0, p.len() as int)[k as int] != p@[k as int]);
            return false;
        }
        k += 1;
    }
    assert(s@.subrange(0, p.len() as int) =~= p@);
    true
}

/// A cursor over the lines of a text.
pub struct SimpleParser {
    lines: Vec<Vec<u8>>,
    next: usize,
}

impl SimpleParser {
    /// The cursor never runs past the end.
    pub closed spec fn wf(&self) -> bool {
        self.next <= self.lines.len()
    }

    /// All the lines of the text.
    pub closed spec fn all_lines(&self) -> Seq<Seq<u8>> {
        views_of(self.lines@)
    }

    /// The line at index `i`, as it is stored.
    pub closed spec fn raw_line(&self, i: int) -> Vec<u8> {
        self.lines@[i]
    }

    /// A stored line holds what `all_lines` says.
    pub proof fn lemma_raw_line(&self, i: int)
        requires
            0 <= i < self.all_lines().len(),
        ensures
            self.raw_line(i)@ == self.all_lines()[i],
    {
    }

    /// How many lines were taken so far.
    pub closed spec fn position(&self) -> int {
        self.next as int
    }

    /// The lines that are still to come.
    pub open spec fn remaining(&self) -> Seq<Seq<u8>> {
        self.all_lines().subrange(self.position(), self.all_lines().len() as int)
    }

    /// The number of the next line, counted from one.
    pub open spec fn line_number(&self) -> int {
        self.position() + 1
    }

    /// A cursor before the first line of `s`.
    pub fn new(s: &[u8]) -> (r: Self)
        ensures
            r.wf(),
            r.all_lines() == byte_lines(s@),
            r.position() == 0,
    {
        SimpleParser { lines: bstr_lines(s), next: 0 }
    }

    /// The next line, which stays in place.
    pub fn peek(&self) -> (r: Result<&Vec<u8>, UnexpectedEof>)
        requires
            self.wf(),
        ensures
            self.remaining().len() == 0 <==> r is Err,
            r matches Ok(line) ==> line@ == self.remaining()[0],
    {
        if self.next < self.lines.len() {
            Ok(&self.lines[self.next])
        } else {
            Err(UnexpectedEof)
        }
    }

    /// Takes the next line.
    pub fn pop(&mut self) -> (r: Result<Vec<u8>, UnexpectedEof>)
        requires
            old(self).wf(),
        ensures
            final(self).wf(),
            final(self).all_lines() == old(self).all_lines(),
            old(self).remaining().len() == 0 <==> r is Err,
            r is Err ==> final(self).position() == old(self).position(),
            r matches Ok(line) ==> line@ == old(self).remaining()[0] && final(self).position()
                == old(self).position() + 1,
    {
        if self.next < self.lines.len() {
            let line = self.lines[self.next].clone();
            self.next += 1;
            Ok(line)
        } else {
            Err(UnexpectedEof)
        }
    }

    /// Takes lines as long as `matcher` accepts them, and returns them. The
    /// first line that it refuses stays in place.
    pub fn take_while<F: Fn(&Vec<u8>) -> bool>(&mut self, matcher: F) -> (taken: Vec<Vec<u8>>)
        requires
            old(self).wf(),
            forall|l: &Vec<u8>| call_requires(matcher, (l,)),
        ensures
            final(self).wf(),
            final(self).all_lines() == old(self).all_lines(),
            old(self).position() <= final(self).position() <= old(self).all_lines().len(),
            views_of(taken@) == old(self).all_lines().subrange(
                old(self).position(),
                final(self).position(),
            ),
            forall|k: int|
                old(self).position() <= k < final(self).position() ==> call_ensures(
                    matcher,
                    (&#[trigger] old(self).raw_line(k),),
                    true,
                ),
            final(self).position() < old(self).all_lines().len() ==> call_ensures(
                matcher,
                (&old(self).raw_line(final(self).position()),),
                false,
            ),
    {
        let mut taken: Vec<Vec<u8>> = Vec::new();
        while self.next < self.lines.len()
            invariant
                self.lines == old(self).lines,
                old(self).next <= self.next <= self.lines.len(),
                forall|l: &Vec<u8>| call_requires(matcher, (l,)),
                views_of(taken@) == self.all_lines().subrange(
                    old(self).next as int,
                    self.next as int,
                ),
                forall|k: int|
                    old(self).next <= k < self.next ==> call_ensures(
                        matcher,
                        (&#[trigger] old(self).raw_line(k),),
                        true,
                    ),
            ensures
                old(self).next <= self.next <= self.lines.len(),
                self.lines == old(self).lines,
                views_of(taken@) == self.all_lines().subrange(
                    old(self).next as int,
                    self.next as int,
                ),
                forall|k: int|
                    old(self).next <= k < self.next ==> call_ensures(
                        matcher,
                        (&#[trigger] old(self).raw_line(k),),
                        true,
                    ),
                self.next < self.lines.len() ==> call_ensures(
                    matcher,
                    (&old(self).raw_line(self.next as int),),
                    false,
                ),
            decreases self.lines.len() - self.next,
        {
            let accepted = matcher(&self.lines[self.next]);
            assert(call_ensures(matcher, (&old(self).raw_line(self.next as int),), accepted));
            if !accepted {
                break;
            }
            let ghost before = taken@;
            taken.push(self.lines[self.next].clone());
            assert(views_of(taken@) =~= views_of(before).push(self.lines[self.next as int]@));
            self.next += 1;
            assert(views_of(taken@) =~= self.all_lines().subrange(
                old(self).next as int,
                self.next as int,
            ));
        }
        taken
    }

    /// Passes over lines as long as `matcher` accepts them.
    pub fn skip_while<F: Fn(&Vec<u8>) -> bool>(&mut self, matcher: F)
        requires
            old(self).wf(),
            forall|l: &Vec<u8>| call_requires(matcher, (l,)),
        ensures
            final(self).wf(),
            final(self).all_lines() == old(self).all_lines(),
            old(self).position() <= final(self).position() <= old(self).all_lines().len(),
            forall|k: int|
                old(self).position() <= k < final(self).position() ==> call_ensures(
                    matcher,
                    (&#[trigger] old(self).raw_line(k),),
                    true,
                ),
            final(self).position() < old(self).all_lines().len() ==> call_ensures(
                matcher,
                (&old(self).raw_line(final(self).position()),),
                false,
            ),
    {
        let _ = self.take_while(matcher);
    }

    /// Passes over lines that hold white space only.
    pub fn skip_whitespace(&mut self)
        requires
            old(self).wf(),
        ensures
            final(self).wf(),
            final(self).all_lines() == old(self).all_lines(),
            final(self).position() == first_match(
                old(self).all_lines(),
                old(self).position(),
                not_blank(),
            ),
    {
        let ghost pred = not_blank();
        let ghost from = self.position();
        let ghost before = *self;
        let matcher = |line: &Vec<u8>| -> (b: bool)
            ensures
                b == is_blank_line(line@)
            { blank_line(line) };
        self.skip_while(matcher);
        proof {
            assert forall|k: int| from <= k < self.position() implies !pred(
                #[trigger] self.all_lines()[k],
            ) by {
                assert(before.raw_line(k)@ == self.all_lines()[k]);
            }
            if self.position() < self.all_lines().len() {
                assert(before.raw_line(self.position())@ == self.all_lines()[self.position()]);
            }
            lemma_first_match(self.all_lines(), from, pred, self.position());
        }
    }

    /// Takes lines up to and including the first that `matcher` accepts.
    /// That line is returned, behind the lines that were taken before it.
    /// Where no line is accepted, every line is taken.
    pub fn take_until<F: Fn(&Vec<u8>) -> bool>(&mut self, matcher: F) -> (r: Result<
        (Vec<Vec<u8>>, Vec<u8>),
        UnexpectedEof,
    >)
        requires
            old(self).wf(),
            forall|l: &Vec<u8>| call_requires(matcher, (l,)),
        ensures
            final(self).wf(),
            final(self).all_lines() == old(self).all_lines(),
            old(self).position() <= final(self).position() <= old(self).all_lines().len(),
            match r {
                Ok((skipped, line)) => {
                    &&& old(self).position() < final(self).position()
                    &&& line@ == old(self).all_lines()[final(self).position() - 1]
                    &&& call_ensures(
                        matcher,
                        (&old(self).raw_line(final(self).position() - 1),),
                        true,
                    )
                    &&& views_of(skipped@) == old(self).all_lines().subrange(
                        old(self).position(),
                        final(self).position() - 1,
                    )
                    &&& forall|k: int|
                        old(self).position() <= k < final(self).position() - 1 ==> call_ensures(
                            matcher,
                            (&#[trigger] old(self).raw_line(k),),
                            false,
                        )
                },
                Err(_) => {
                    &&& final(self).position() == old(self).all_lines().len()
                    &&& forall|k: int|
                        old(self).position() <= k < final(self).position() ==> call_ensures(
                            matcher,
                            (&#[trigger] old(self).raw_line(k),),
                            false,
                        )
                },
            },
    {
        let mut skipped: Vec<Vec<u8>> = Vec::new();
        while self.next < self.lines.len()
            invariant
                self.lines == old(self).lines,
                old(self).next <= self.next <= self.lines.len(),
                forall|l: &Vec<u8>| call_requires(matcher, (l,)),
                views_of(skipped@) == self.all_lines().subrange(
                    old(self).next as int,
                    self.next as int,
                ),
                forall|k: int|
                    old(self).next <= k < self.next ==> call_ensures(
                        matcher,
                        (&#[trigger] old(self).raw_line(k),),
                        false,
                    ),
            decreases self.lines.len() - self.next,
        {
            let line = self.lines[self.next].clone();
            let accepted = matcher(&self.lines[self.next]);
            assert(call_ensures(matcher, (&old(self).raw_line(self.next as int),), accepted));
            self.next += 1;
            if accepted {
                return Ok((skipped, line));
            }
            let ghost before = skipped@;
            skipped.push(line);
            assert(views_of(skipped@) =~= views_of(before).push(self.lines[self.next - 1]@));
            assert(views_of(skipped@) =~= self.all_lines().subrange(
                old(self).next as int,
                self.next as int,
            ));
        }
        Err(UnexpectedEof)
    }
}

/// The index of the first line at or after `from` that `pred` holds of, or
/// the number of lines where there is none.
pub open spec fn first_match<T>(lines: Seq<T>, from: int, pred: spec_fn(T) -> bool) -> int
    decreases lines.len() - from,
{
    if from < 0 || from >= lines.len() {
        lines.len() as int
    } else if pred(lines[from]) {
        from
    } else {
        first_match(lines, from + 1, pred)
    }
}

/// `first_match` is at `k` when `pred` fails between `from` and `k` and
/// holds at `k`, or `k` is the end.
pub proof fn lemma_first_match<T>(lines: Seq<T>, from: int, pred: spec_fn(T) -> bool, k: int)
    requires
        0 <= from <= k <= lines.len(),
        forall|j: int| from <= j < k ==> !pred(#[trigger] lines[j]),
        k < lines.len() ==> pred(lines[k]),
    ensures
        first_match(lines, from, pred) == k,
    decreases k - from,
{
    if from < k {
        lemma_first_match(lines, from + 1, pred, k);
    }
}

/// `first_match` stays within the lines, finds a line that `pred` holds of,
/// and passes over none.
pub proof fn lemma_first_match_is_first<T>(lines: Seq<T>, from: int, pred: spec_fn(T) -> bool)
    requires
        0 <= from <= lines.len(),
    ensures
        from <= first_match(lines, from, pred) <= lines.len(),
        first_match(lines, from, pred) < lines.len() ==> pred(
            lines[first_match(lines, from, pred)],
        ),
        forall|j: int| from <= j < first_match(lines, from, pred) ==> !pred(#[trigger] lines[j]),
    decreases lines.len() - from,
{
    if from < lines.len() && !pred(lines[from]) {
        lemma_first_match_is_first(lines, from + 1, pred);
    }
}

} // verus!
