//! The lines that open a patch message: what each must look like, and what
//! it says.
use crate::regenerate_patches::{hex_char, is_hex_char};
use crate::text::{
    contains_seq, copy_range, ends_with, find, first_occurrence, has_prefix, has_suffix,
    occurs_at, starts_with, str_chars,
};
use crate::utils::{first_match, lemma_first_match};
use vstd::prelude::*;
use vstd::string::*;

verus! {

/// The name and the address of an author.
pub struct AuthorInfo<T> {
    pub name: T,
    pub email: T,
}

impl<T> AuthorInfo<T> {
    /// Applies `func` to the name and then to the address, and stops at the
    /// first failure.
    pub fn try_map<U, E, F: Fn(T) -> Result<U, E>>(self, func: F) -> (r: Result<AuthorInfo<U>, E>)
        requires
            call_requires(func, (self.name,)),
            call_requires(func, (self.email,)),
        ensures
            match r {
                Ok(mapped) => call_ensures(func, (self.name,), Ok(mapped.name)) && call_ensures(
                    func,
                    (self.email,),
                    Ok(mapped.email),
                ),
                Err(e) => call_ensures(func, (self.name,), Err(e)) || (exists|name: U|
                    #[trigger] call_ensures(func, (self.name,), Ok(name))
                        && call_ensures(func, (self.email,), Err(e))),
            },
    {
        let name = match func(self.name) {
            Ok(name) => name,
            Err(e) => {
                return Err(e);
            },
        };
        let email = match func(self.email) {
            Ok(email) => email,
            Err(e) => {
                assert(call_ensures(func, (self.name,), Ok(name)));
                return Err(e);
            },
        };
        Ok(AuthorInfo { name, email })
    }

    /// Applies `func` to the name and to the address.
    pub fn map<U, F: Fn(T) -> U>(self, func: F) -> (r: AuthorInfo<U>)
        requires
            call_requires(func, (self.name,)),
            call_requires(func, (self.email,)),
        ensures
            call_ensures(func, (self.name,), r.name),
            call_ensures(func, (self.email,), r.email),
    {
        AuthorInfo { name: func(self.name), email: func(self.email) }
    }
}

/// Every character of `s` is a hexadecimal digit.
pub open spec fn all_hex(s: Seq<char>) -> bool {
    forall|i: int| 0 <= i < s.len() ==> is_hex_char(#[trigger] s[i])
}

/// Every character of `s` is a decimal digit.
pub open spec fn all_digits(s: Seq<char>) -> bool {
    forall|i: int| 0 <= i < s.len() ==> '0' <= #[trigger] s[i] <= '9'
}

/// The index of the first occurrence of `needle` in `s`, or -1.
pub open spec fn index_of(s: Seq<char>, needle: Seq<char>) -> int {
    if contains_seq(s, needle) {
        choose|i: int| first_occurrence(s, needle, i)
    } else {
        -1
    }
}

/// A first occurrence is the index that `index_of` gives.
pub proof fn lemma_index_of(s: Seq<char>, needle: Seq<char>, i: int)
    requires
        first_occurrence(s, needle, i),
    ensures
        index_of(s, needle) == i,
{
    assert(occurs_at(s, needle, i));
    let j = choose|j: int| first_occurrence(s, needle, j);
    if j < i {
        assert(!occurs_at(s, needle, j));
    }
    if i < j {
        assert(!occurs_at(s, needle, i));
    }
}

/// The hash that the first line of a patch message names: the line is
/// `From `, one to forty hexadecimal digits, and a fixed date.
pub open spec fn header_hash(line: Seq<char>) -> Option<Seq<char>> {
    let prefix = "From "@;
    let suffix = " Mon Sep 17 00:00:00 2001"@;
    if has_prefix(line, prefix) && line.len() >= prefix.len() + suffix.len() && has_suffix(
        line,
        suffix,
    ) {
        let hash = line.subrange(prefix.len() as int, line.len() - suffix.len());
        if 1 <= hash.len() <= 40 && all_hex(hash) {
            Some(hash)
        } else {
            None
        }
    } else {
        None
    }
}

/// The characters that close an address.
pub open spec fn closers() -> spec_fn(char) -> bool {
    |c: char| c == '>'
}

/// The characters that open a time zone offset.
pub open spec fn signs() -> spec_fn(char) -> bool {
    |c: char| c == '+' || c == '-'
}

/// The author that the line names: `From: `, a name up to the first ` <`,
/// an address up to the first `>`, and nothing behind it. Neither the name
/// nor the address is empty.
pub open spec fn author_of(line: Seq<char>) -> Option<(Seq<char>, Seq<char>)> {
    if !has_prefix(line, "From: "@) {
        None
    } else {
        let rest = line.subrange(6, line.len() as int);
        let open = index_of(rest, " <"@);
        if open < 1 {
            None
        } else {
            let after = rest.subrange(open + 2, rest.len() as int);
            let close = first_match(after, 0, closers());
            if 1 <= close && close == after.len() - 1 {
                Some((rest.subrange(0, open), after.subrange(0, close)))
            } else {
                None
            }
        }
    }
}

/// The date that the line gives: `Date: `, a text without sign, a sign, and
/// the digits of a time zone offset up to the end of the line.
pub open spec fn date_of(line: Seq<char>) -> Option<Seq<char>> {
    if !has_prefix(line, "Date: "@) {
        None
    } else {
        let date = line.subrange(6, line.len() as int);
        let sign = first_match(date, 0, signs());
        if 1 <= sign && sign + 1 < date.len() && all_digits(
            date.subrange(sign + 1, date.len() as int),
        ) {
            Some(date)
        } else {
            None
        }
    }
}

/// The subject that the line gives: what follows `Subject: `, without
/// `[PATCH] ` where it starts with that.
pub open spec fn subject_of(line: Seq<char>) -> Option<Seq<char>> {
    if !has_prefix(line, "Subject: "@) {
        None
    } else {
        let rest = line.subrange(9, line.len() as int);
        if has_prefix(rest, "[PATCH] "@) {
            Some(rest.subrange(8, rest.len() as int))
        } else {
            Some(rest)
        }
    }
}

/// The line starts the diff of a file: `diff --git a/`, and ` b/` somewhere
/// behind it.
pub open spec fn is_diff_start(line: Seq<char>) -> bool {
    has_prefix(line, "diff --git a/"@) && contains_seq(
        line.subrange(13, line.len() as int),
        " b/"@,
    )
}

/// Whether `s[from..to]` holds hexadecimal digits only.
fn hex_digits(s: &[char], from: usize, to: usize) -> (r: bool)
    requires
        from <= to <= s.len(),
    ensures
        r == all_hex(s@.subrange(from as int, to as int)),
{
    let ghost part = s@.subrange(from as int, to as int);
    let mut i: usize = from;
    while i < to
        invariant
            from <= i <= to <= s.len(),
            part == s@.subrange(from as int, to as int),
            forall|k: int| 0 <= k < i - from ==> is_hex_char(#[trigger] part[k]),
        decreases to - i,
    {
        if !hex_char(s[i]) {
            assert(!is_hex_char(part[i - from]));
            return false;
        }
        i += 1;
    }
    true
}

/// Whether `s[from..to]` holds decimal digits only.
fn decimal_digits(s: &[char], from: usize, to: usize) -> (r: bool)
    requires
        from <= to <= s.len(),
    ensures
        r == all_digits(s@.subrange(from as int, to as int)),
{
    let ghost part = s@.subrange(from as int, to as int);
    let mut i: usize = from;
    while i < to
        invariant
            from <= i <= to <= s.len(),
            part == s@.subrange(from as int, to as int),
            forall|k: int| 0 <= k < i - from ==> '0' <= #[trigger] part[k] <= '9',
        decreases to - i,
    {
        if !('0' <= s[i] && s[i] <= '9') {
            assert(!('0' <= part[i - from] <= '9'));
            return false;
        }
        i += 1;
    }
    true
}

/// The hash that the line names, where it is the first line of a patch
/// message.
pub fn parse_header_line(line: &Vec<char>) -> (r: Option<Vec<char>>)
    ensures
        r is Some <==> header_hash(line@) is Some,
        r matches Some(hash) ==> header_hash(line@) == Some(hash@),
{
    let prefix = str_chars("From ");
    let suffix = str_chars(" Mon Sep 17 00:00:00 2001");
    proof {
        reveal_strlit("From ");
        reveal_strlit(" Mon Sep 17 00:00:00 2001");
    }
    let s = line.as_slice();
    if !(starts_with(s, prefix.as_slice()) && s.len() >= prefix.len() + suffix.len() && ends_with(
        s,
        suffix.as_slice(),
    )) {
        return None;
    }
    let from = prefix.len();
    let to = s.len() - suffix.len();
    if !(1 <= to - from && to - from <= 40) {
        return None;
    }
    if !hex_digits(s, from, to) {
        return None;
    }
    Some(copy_range(s, from, to))
}

/// The author that the line names.
pub fn parse_author_line(line: &Vec<char>) -> (r: Option<AuthorInfo<Vec<char>>>)
    ensures
        r is Some <==> author_of(line@) is Some,
        r matches Some(author) ==> author_of(line@) == Some((author.name@, author.email@)),
{
    let prefix = str_chars("From: ");
    let opener = str_chars(" <");
    proof {
        reveal_strlit("From: ");
        reveal_strlit(" <");
    }
    let s = line.as_slice();
    if !starts_with(s, prefix.as_slice()) {
        return None;
    }
    let rest = vstd::slice::slice_subrange(s, 6, s.len());
    let open = match find(rest, opener.as_slice()) {
        None => {
            return None;
        },
        Some(open) => open,
    };
    proof {
        lemma_index_of(rest@, " <"@, open as int);
    }
    if open < 1 {
        return None;
    }
    let after = vstd::slice::slice_subrange(rest, open + 2, rest.len());
    let mut close: usize = 0;
    while close < after.len() && after[close] != '>'
        invariant
            close <= after.len(),
            forall|k: int| 0 <= k < close ==> !closers()(#[trigger] after@[k]),
        decreases after.len() - close,
    {
        close += 1;
    }
    proof {
        lemma_first_match(after@, 0, closers(), close as int);
    }
    if 1 <= close && close + 1 == after.len() {
        Some(AuthorInfo { name: copy_range(rest, 0, open), email: copy_range(after, 0, close) })
    } else {
        None
    }
}

/// The date that the line gives.
pub fn parse_date_line(line: &Vec<char>) -> (r: Option<Vec<char>>)
    ensures
        r is Some <==> date_of(line@) is Some,
        r matches Some(date) ==> date_of(line@) == Some(date@),
{
    let prefix = str_chars("Date: ");
    proof {
        reveal_strlit("Date: ");
    }
    let s = line.as_slice();
    if !starts_with(s, prefix.as_slice()) {
        return None;
    }
    let date = vstd::slice::slice_subrange(s, 6, s.len());
    let mut sign: usize = 0;
    while sign < date.len() && date[sign] != '+' && date[sign] != '-'
        invariant
            sign <= date.len(),
            forall|k: int| 0 <= k < sign ==> !signs()(#[trigger] date@[k]),
        decreases date.len() - sign,
    {
        sign += 1;
    }
    proof {
        lemma_first_match(date@, 0, signs(), sign as int);
    }
    if !(1 <= sign && sign < date.len() && sign + 1 < date.len()) {
        return None;
    }
    if !decimal_digits(date, sign + 1, date.len()) {
        return None;
    }
    assert(date@.subrange(0, date@.len() as int) =~= date@);
    Some(copy_range(date, 0, date.len()))
}

/// The subject that the line gives.
pub fn parse_subject_line(line: &Vec<char>) -> (r: Option<Vec<char>>)
    ensures
        r is Some <==> subject_of(line@) is Some,
        r matches Some(subject) ==> subject_of(line@) == Some(subject@),
{
    let prefix = str_chars("Subject: ");
    let tag = str_chars("[PATCH] ");
    proof {
        reveal_strlit("Subject: ");
        reveal_strlit("[PATCH] ");
    }
    let s = line.as_slice();
    if !starts_with(s, prefix.as_slice()) {
        return None;
    }
    let rest = vstd::slice::slice_subrange(s, 9, s.len());
    if starts_with(rest, tag.as_slice()) {
        Some(copy_range(rest, 8, rest.len()))
    } else {
        let subject = copy_range(rest, 0, rest.len());
        assert(rest@.subrange(0, rest@.len() as int) =~= rest@);
        Some(subject)
    }
}

/// Whether the line starts the diff of a file.
pub fn parse_begin_diff_line(line: &Vec<char>) -> (r: bool)
    ensures
        r == is_diff_start(line@),
{
    let prefix = str_chars("diff --git a/");
    let second = str_chars(" b/");
    proof {
        reveal_strlit("diff --git a/");
    }
    let s = line.as_slice();
    if !starts_with(s, prefix.as_slice()) {
        return false;
    }
    let rest = vstd::slice::slice_subrange(s, 13, s.len());
    find(rest, second.as_slice()).is_some()
}

} // verus!
