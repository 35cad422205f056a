//! Regenerating a patch directory: which files go, and which regenerated
//! files differ from their former text only by the footer that the diff
//! renderer signs them with.
use crate::text::{
    blank, char_lines, contains_seq, find, find_from, is_blank, matches_at, occurs_at, same_chars,
    split_lines, str_chars, string_of, trim, trimmed, views_of,
};
use crate::utils::{keep_last, lemma_keep_last_push, RememberLast, REMEMBER_LIMIT};
use vstd::prelude::*;
use vstd::string::*;

pub mod patch_file;

verus! {

/// An ASCII hexadecimal digit, in either case.
pub open spec fn is_hex_char(c: char) -> bool {
    ('0' <= c <= '9') || ('a' <= c <= 'f') || ('A' <= c <= 'F')
}

/// `line` holds `From ` with a hexadecimal digit right behind it, as the
/// first line of a patch file does.
pub open spec fn has_hash_header(line: Seq<char>) -> bool {
    exists|i: int| #[trigger]
        occurs_at(line, "From "@, i) && i + 5 < line.len() && is_hex_char(line[i + 5])
}

/// A changed line that says nothing of the fork's content: it repeats the
/// patch header, names a file of the diff, or is an index line.
pub open spec fn trivial_line(line: Seq<char>) -> bool {
    ||| contains_seq(line, "--- a"@)
    ||| contains_seq(line, "+++ b"@)
    ||| has_hash_header(line)
    ||| (line.len() >= 6 && line.subrange(1, 6) == "index"@)
}

/// A line that a diff marks as added or removed.
pub open spec fn is_change_line(line: Seq<char>) -> bool {
    line.len() > 0 && (line[0] == '+' || line[0] == '-')
}

/// A changed line that is not trivial.
pub open spec fn is_significant(line: Seq<char>) -> bool {
    is_change_line(line) && !trivial_line(line)
}

/// The significant lines among `lines`, in order.
pub open spec fn significant_lines(lines: Seq<Seq<char>>) -> Seq<Seq<char>>
    decreases lines.len(),
{
    if lines.len() == 0 {
        Seq::<Seq<char>>::empty()
    } else if is_significant(lines.last()) {
        significant_lines(lines.drop_last()).push(lines.last())
    } else {
        significant_lines(lines.drop_last())
    }
}

/// What a changed line says behind its marker, trimmed.
pub open spec fn change_body(line: Seq<char>) -> Seq<char> {
    if line.len() == 0 {
        Seq::<char>::empty()
    } else {
        trim(line.subrange(1, line.len() as int))
    }
}

/// The body of the line remembered `k` lines before the newest one.
pub open spec fn body_back(remembered: Seq<Seq<char>>, k: int) -> Seq<char> {
    change_body(remembered[remembered.len() - 1 - k])
}

/// A line that a diff marks as removed.
pub open spec fn is_removed_line(line: Seq<char>) -> bool {
    line.len() > 0 && line[0] == '-'
}

/// The line remembered `k` lines before the newest one can stand for the
/// former version: it is a removed line, and no footer separator.
pub open spec fn is_former_version(remembered: Seq<Seq<char>>, k: int) -> bool {
    is_removed_line(remembered[remembered.len() - 1 - k]) && body_back(remembered, k) != "--"@
}

/// Whether the remembered changes are all accounted for by a change of the
/// tool version `version` in the footer.
///
/// No change needs no account. A single change must be the version line.
/// More changes are, newest first: a blank line, which may be missing; the
/// version line; then either the removed line of the former version, or
/// the footer separator `--`, the removed line of the former version, and
/// the separator again. Nothing else may be left, and a separator counts
/// only with its partner.
pub open spec fn explained_by_version(remembered: Seq<Seq<char>>, version: Seq<char>) -> bool {
    if remembered.len() == 0 {
        true
    } else if remembered.len() == 1 {
        body_back(remembered, 0) == version
    } else {
        let blank: int = if body_back(remembered, 0).len() == 0 {
            1
        } else {
            0
        };
        &&& body_back(remembered, blank) == version
        &&& if remembered.len() >= blank + 4 && body_back(remembered, blank + 1) == "--"@
            && body_back(remembered, blank + 3) == "--"@ {
            remembered.len() == blank + 4 && is_former_version(remembered, blank + 2)
        } else {
            remembered.len() == blank + 2 && is_former_version(remembered, blank + 1)
        }
    }
}

/// Whether the line diff `diff` of a patch file shows no more than a change
/// of the tool version `version`.
pub open spec fn is_trivial_change(diff: Seq<char>, version: Seq<char>) -> bool {
    explained_by_version(
        keep_last(significant_lines(char_lines(diff)), REMEMBER_LIMIT as nat),
        version,
    )
}

/// A diff in which nothing significant changed is trivial.
pub proof fn lemma_no_change_is_trivial(diff: Seq<char>, version: Seq<char>)
    requires
        significant_lines(char_lines(diff)).len() == 0,
    ensures
        is_trivial_change(diff, version),
{
}

/// A diff whose only significant change is the line of the tool version is
/// trivial: the line that gives the version alone, or behind the removed
/// line that it replaces.
pub proof fn lemma_version_change_is_trivial(
    diff: Seq<char>,
    version: Seq<char>,
    former: Seq<char>,
    current: Seq<char>,
)
    requires
        significant_lines(char_lines(diff)) == seq![current] || (significant_lines(
            char_lines(diff),
        ) == seq![former, current] && is_removed_line(former) && change_body(former) != "--"@),
        change_body(current) == version,
        version.len() > 0,
    ensures
        is_trivial_change(diff, version),
{
    let lines = significant_lines(char_lines(diff));
    assert(keep_last(lines, REMEMBER_LIMIT as nat) == lines);
    assert(body_back(lines, 0) == change_body(current));
    if lines.len() == 2 {
        assert(lines[lines.len() - 1 - 1] == former);
        assert(body_back(lines, 1) == change_body(former));
    }
}

/// A diff that changes the tool version between its footer separators, and
/// nothing else of significance, is trivial.
pub proof fn lemma_footer_change_is_trivial(
    diff: Seq<char>,
    version: Seq<char>,
    lines: Seq<Seq<char>>,
)
    requires
        significant_lines(char_lines(diff)) == lines,
        lines.len() == 4,
        change_body(lines[0]) == "--"@,
        is_removed_line(lines[1]),
        change_body(lines[1]) != "--"@,
        change_body(lines[2]) == "--"@,
        change_body(lines[3]) == version,
        version.len() > 0,
    ensures
        is_trivial_change(diff, version),
{
    assert(keep_last(lines, REMEMBER_LIMIT as nat) == lines);
    assert(body_back(lines, 0) == change_body(lines[3]));
    assert(body_back(lines, 1) == change_body(lines[2]));
    assert(body_back(lines, 2) == change_body(lines[1]));
    assert(body_back(lines, 3) == change_body(lines[0]));
}

/// A diff of two significant changes, the first of which is no removed
/// line or is a footer separator, is not trivial: a line that is added
/// before the version line is a change of content, and a separator without
/// its partner is no footer.
pub proof fn lemma_line_before_version_must_be_former(
    diff: Seq<char>,
    version: Seq<char>,
    first: Seq<char>,
    second: Seq<char>,
)
    requires
        significant_lines(char_lines(diff)) == seq![first, second],
        !is_removed_line(first) || change_body(first) == "--"@,
    ensures
        !is_trivial_change(diff, version),
{
    let lines = significant_lines(char_lines(diff));
    assert(keep_last(lines, REMEMBER_LIMIT as nat) == lines);
    assert(lines[lines.len() - 1 - 1] == first);
    assert(body_back(lines, 1) == change_body(first));
}

/// A changed line that the footer cannot account for: it is not blank, and
/// it is neither the tool version nor a footer separator.
pub open spec fn is_content_change(line: Seq<char>, version: Seq<char>) -> bool {
    change_body(line).len() > 0 && change_body(line) != version && change_body(line) != "--"@
}

/// A diff with significant changes, none of which gives the tool version,
/// is not trivial.
pub proof fn lemma_change_without_version_is_not_trivial(diff: Seq<char>, version: Seq<char>)
    requires
        significant_lines(char_lines(diff)).len() > 0,
        forall|i: int|
            0 <= i < significant_lines(char_lines(diff)).len() ==> change_body(
                #[trigger] significant_lines(char_lines(diff))[i],
            ) != version,
    ensures
        !is_trivial_change(diff, version),
{
    let lines = significant_lines(char_lines(diff));
    let kept = keep_last(lines, REMEMBER_LIMIT as nat);
    assert forall|k: int| 0 <= k < kept.len() implies change_body(#[trigger] kept[k])
        != version by {
        if lines.len() > REMEMBER_LIMIT {
            assert(kept[k] == lines[lines.len() - REMEMBER_LIMIT + k]);
        }
    }
    assert(body_back(kept, 0) == change_body(kept[kept.len() - 1]));
    if kept.len() >= 2 {
        assert(body_back(kept, 1) == change_body(kept[kept.len() - 2]));
    }
}

/// A diff of at most `REMEMBER_LIMIT` significant changes, two of which the
/// footer cannot account for, is not trivial.
pub proof fn lemma_content_changes_are_not_trivial(
    diff: Seq<char>,
    version: Seq<char>,
    i: int,
    j: int,
)
    requires
        significant_lines(char_lines(diff)).len() <= REMEMBER_LIMIT,
        0 <= i < j < significant_lines(char_lines(diff)).len(),
        is_content_change(significant_lines(char_lines(diff))[i], version),
        is_content_change(significant_lines(char_lines(diff))[j], version),
    ensures
        !is_trivial_change(diff, version),
{
    let lines = significant_lines(char_lines(diff));
    assert(keep_last(lines, REMEMBER_LIMIT as nat) == lines);
    let n = lines.len() as int;
    assert(body_back(lines, 0) == change_body(lines[n - 1]));
    assert(body_back(lines, 1) == change_body(lines[n - 2]));
    if n >= 3 {
        assert(body_back(lines, 2) == change_body(lines[n - 3]));
    }
    if n >= 4 {
        assert(body_back(lines, 3) == change_body(lines[n - 4]));
    }
    if n >= 5 {
        assert(body_back(lines, 4) == change_body(lines[n - 5]));
    }
}

/// Whether `c` is an ASCII hexadecimal digit.
pub fn hex_char(c: char) -> (r: bool)
    ensures
        r == is_hex_char(c),
{
    ('0' <= c && c <= '9') || ('a' <= c && c <= 'f') || ('A' <= c && c <= 'F')
}

/// Whether `line` holds `From ` with a hexadecimal digit behind it.
fn hash_header(line: &[char]) -> (r: bool)
    ensures
        r == has_hash_header(line@),
{
    let from = str_chars("From ");
    proof {
        reveal_strlit("From ");
    }
    let mut start: usize = 0;
    loop
        invariant
            from@ == "From "@,
            from@.len() == 5,
            forall|i: int|
                0 <= i < start ==> !(#[trigger] occurs_at(line@, "From "@, i) && i + 5 < line@.len()
                    && is_hex_char(line@[i + 5])),
        decreases line.len() + 1 - start,
    {
        match find_from(line, from.as_slice(), start) {
            None => {
                return false;
            },
            Some(i) => {
                if i + 5 < line.len() && hex_char(line[i + 5]) {
                    return true;
                }
                start = i + 1;
            },
        }
    }
}

/// Whether the changed line `line` is trivial.
pub fn is_trivial_line(line: &[char]) -> (r: bool)
    ensures
        r == trivial_line(line@),
{
    let old_file = str_chars("--- a");
    let new_file = str_chars("+++ b");
    let index = str_chars("index");
    if find(line, old_file.as_slice()).is_some() {
        return true;
    }
    if find(line, new_file.as_slice()).is_some() {
        return true;
    }
    if hash_header(line) {
        return true;
    }
    proof {
        reveal_strlit("index");
    }
    line.len() >= 6 && matches_at(line, index.as_slice(), 1)
}

/// Whether the body of the changed line `line` is `text`.
fn body_is(line: &Vec<char>, text: &[char]) -> (r: bool)
    ensures
        r == (change_body(line@) == text@),
{
    if line.len() == 0 {
        assert((text@.len() == 0) == (Seq::<char>::empty() =~= text@));
        return text.len() == 0;
    }
    let body = trimmed(vstd::slice::slice_subrange(line.as_slice(), 1, line.len()));
    same_chars(body.as_slice(), text)
}

/// Whether the body of the changed line `line` is empty.
fn body_is_empty(line: &Vec<char>) -> (r: bool)
    ensures
        r == (change_body(line@).len() == 0),
{
    if line.len() == 0 {
        return true;
    }
    let body = trimmed(vstd::slice::slice_subrange(line.as_slice(), 1, line.len()));
    body.len() == 0
}

/// Whether the remembered changes are accounted for by a change of the
/// tool version.
pub fn explained(remember: &RememberLast, version: &[char]) -> (r: bool)
    ensures
        r == explained_by_version(remember@, version@),
{
    let n = remember.len();
    if n == 0 {
        return true;
    }
    if n == 1 {
        return body_is(remember.back(0), version);
    }
    let blank: usize = if body_is_empty(remember.back(0)) {
        1
    } else {
        0
    };
    if !body_is(remember.back(blank), version) {
        return false;
    }
    let separator = str_chars("--");
    if n >= blank + 4 && body_is(remember.back(blank + 1), separator.as_slice()) && body_is(
        remember.back(blank + 3),
        separator.as_slice(),
    ) {
        n == blank + 4 && former_version(remember, blank + 2)
    } else {
        n == blank + 2 && former_version(remember, blank + 1)
    }
}

/// Whether the line remembered `k` lines before the newest one can stand
/// for the former version.
fn former_version(remember: &RememberLast, k: usize) -> (r: bool)
    requires
        k < remember@.len(),
    ensures
        r == is_former_version(remember@, k as int),
{
    let line = remember.back(k);
    let separator = str_chars("--");
    line.len() > 0 && line[0] == '-' && !body_is(line, separator.as_slice())
}

/// Whether the line diff `diff` between the former and the regenerated text
/// of a patch file shows no more than a change of the tool version
/// `git_ver`.
pub fn is_trivial_patch_change(diff: &str, git_ver: &str) -> (r: bool)
    ensures
        r == is_trivial_change(diff@, git_ver@),
{
    let text = str_chars(diff);
    let lines = split_lines(text.as_slice());
    let version = str_chars(git_ver);
    let ghost all = views_of(lines@);
    let mut remember = RememberLast::new();
    let mut i: usize = 0;
    while i < lines.len()
        invariant
            i <= lines.len(),
            all == views_of(lines@),
            remember@ == keep_last(significant_lines(all.take(i as int)), REMEMBER_LIMIT as nat),
        decreases lines.len() - i,
    {
        let line = &lines[i];
        proof {
            assert(all.take(i + 1).drop_last() =~= all.take(i as int));
            assert(all.take(i + 1).last() == line@);
            lemma_keep_last_push(
                significant_lines(all.take(i as int)),
                line@,
                REMEMBER_LIMIT as nat,
            );
        }
        if line.len() > 0 && (line[0] == '+' || line[0] == '-') {
            if !is_trivial_line(line.as_slice()) {
                remember.remember(line);
            }
        }
        i += 1;
    }
    assert(all.take(lines.len() as int) =~= all);
    explained(&remember, version.as_slice())
}

/// The tool version that the patch file `contents` was signed with: its
/// last line, or the line before where the last is blank, trimmed. A text
/// of fewer than two lines has none.
pub open spec fn tool_version_of(contents: Seq<char>) -> Option<Seq<char>> {
    let lines = char_lines(contents);
    if lines.len() < 2 {
        None
    } else if is_blank(lines.last()) {
        Some(trim(lines[lines.len() - 2]))
    } else {
        Some(trim(lines.last()))
    }
}

/// The tool version that the patch file `contents` was signed with.
pub fn tool_version(contents: &str) -> (r: Option<String>)
    ensures
        r is Some <==> tool_version_of(contents@) is Some,
        r matches Some(v) ==> tool_version_of(contents@) == Some(v@),
{
    let text = str_chars(contents);
    let lines = split_lines(text.as_slice());
    let n = lines.len();
    assert(views_of(lines@).len() == n);
    if n < 2 {
        return None;
    }
    assert(views_of(lines@).last() == lines@[n - 1]@);
    assert(views_of(lines@)[n - 2] == lines@[n - 2]@);
    let chosen = if blank(lines[n - 1].as_slice()) {
        &lines[n - 2]
    } else {
        &lines[n - 1]
    };
    let version = trimmed(chosen.as_slice());
    Some(string_of(version.as_slice()))
}

/// What `origin` and `content` add to the text of a diff: the line's
/// content, behind its marker where the line is context, added or removed.
pub open spec fn diff_line_text(origin: char, content: Seq<char>) -> Seq<char> {
    if origin == ' ' || origin == '+' || origin == '-' {
        seq![origin] + content
    } else {
        content
    }
}

/// Appends one line of a rendered diff to `buffer`.
pub fn push_diff_line(buffer: &mut String, origin: char, content: &str)
    ensures
        final(buffer)@ == old(buffer)@ + diff_line_text(origin, content@),
{
    if origin == ' ' || origin == '+' || origin == '-' {
        crate::text::push_char(buffer, origin);
    }
    let more = str_chars(content);
    crate::format_patches::format::append_chars(buffer, more.as_slice());
    assert(buffer@ =~= old(buffer)@ + diff_line_text(origin, content@));
}

/// A patch file after regeneration: its text, and the line diff against
/// the text that was staged before, where the two differ.
pub struct RegeneratedPatch {
    pub contents: String,
    pub staged_diff: Option<String>,
}

/// Whether the regenerated patch is to be put back as it was: it differs
/// from its former text, and only by the tool version.
pub open spec fn is_reverted(contents: Seq<char>, staged_diff: Option<Seq<char>>) -> bool {
    match (staged_diff, tool_version_of(contents)) {
        (Some(diff), Some(version)) => is_trivial_change(diff, version),
        _ => false,
    }
}

/// A regenerated patch that differs from its former text by the line of
/// the tool version alone is put back: the diff removes the line of the
/// former version and adds that of the version that the patch now ends in.
pub proof fn lemma_version_churn_is_reverted(
    contents: Seq<char>,
    diff: Seq<char>,
    former: Seq<char>,
    current: Seq<char>,
)
    requires
        tool_version_of(contents) matches Some(version) && version.len() > 0 && change_body(
            current,
        ) == version,
        significant_lines(char_lines(diff)) == seq![former, current],
        is_removed_line(former),
        change_body(former) != "--"@,
    ensures
        is_reverted(contents, Some(diff)),
{
    lemma_version_change_is_trivial(diff, tool_version_of(contents)->0, former, current);
}

/// Whether `patch` is to be put back as it was.
pub fn reverts(patch: &RegeneratedPatch) -> (r: bool)
    ensures
        r == is_reverted(
            patch.contents@,
            match patch.staged_diff {
                Some(d) => Some(d@),
                None => None,
            },
        ),
{
    match &patch.staged_diff {
        None => false,
        Some(diff) => match tool_version(patch.contents.as_str()) {
            None => false,
            Some(version) => is_trivial_patch_change(diff.as_str(), version.as_str()),
        },
    }
}

/// The indices, in ascending order, of the regenerated patches that are to
/// be put back as they were.
pub fn trivial_patches(patches: &Vec<RegeneratedPatch>) -> (r: Vec<usize>)
    ensures
        forall|k: int| 0 <= k < r.len() ==> r[k] < patches.len(),
        forall|k: int, l: int| 0 <= k < l < r.len() ==> r[k] < r[l],
        forall|i: int|
            0 <= i < patches.len() ==> (r@.contains(i as usize) <==> is_reverted(
                #[trigger] patches[i].contents@,
                match patches[i].staged_diff {
                    Some(d) => Some(d@),
                    None => None,
                },
            )),
{
    let mut r: Vec<usize> = Vec::new();
    let mut i: usize = 0;
    while i < patches.len()
        invariant
            i <= patches.len(),
            forall|k: int| 0 <= k < r.len() ==> r[k] < i,
            forall|k: int, l: int| 0 <= k < l < r.len() ==> r[k] < r[l],
            forall|j: int|
                0 <= j < i ==> (r@.contains(j as usize) <==> is_reverted(
                    #[trigger] patches[j].contents@,
                    match patches[j].staged_diff {
                        Some(d) => Some(d@),
                        None => None,
                    },
                )),
        decreases patches.len() - i,
    {
        let ghost before = r@;
        if reverts(&patches[i]) {
            r.push(i);
            assert(r@.last() == i);
            assert(forall|j: usize| before.contains(j) ==> r@.contains(j)) by {
                assert forall|j: usize| before.contains(j) implies r@.contains(j) by {
                    let k = choose|k: int| 0 <= k < before.len() && before[k] == j;
                    assert(r@[k] == j);
                }
            }
            assert(forall|j: usize| r@.contains(j) ==> before.contains(j) || j == i) by {
                assert forall|j: usize| r@.contains(j) implies before.contains(j) || j == i by {
                    let k = choose|k: int| 0 <= k < r@.len() && r@[k] == j;
                    if k < before.len() {
                        assert(before[k] == j);
                    }
                }
            }
        }
        assert(!before.contains(i)) by {
            if before.contains(i) {
                let k = choose|k: int| 0 <= k < before.len() && before[k] == i;
                assert(before[k] < i);
            }
        }
        i += 1;
    }
    r
}

} // verus!
