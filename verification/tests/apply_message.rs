use gitpatcher::apply_patches::apply::{
    bad_path, check_path, delta_removal, finish_delta, patch_text, ApplyRequest, BadPathError,
    DeltaApplyError, DeltaDesc, DeltaFileDesc, PatchApplyError, PathCheck, PendingPatch, TreeEdit,
};
use gitpatcher::apply_patches::diff::{DeltaStatus, RawFile};
use gitpatcher::apply_patches::{EmailMessage, InvalidEmailMessage};

const APPROX_PI: &str = "/// Compute the area of a polygon based on its apothem
#[inline]
fn polygon_apothem_area(apothem: f64, sides: u16) -> f64 {
    0.5 * (sides as f64) * apothem
}

fn main() {
    for sides in 0..16 {
        println!(\"{} sides: {}\", sides, polygon_apothem_area(1.0, sides));
    }
}


";

const HEADER: &str = "From 0123456789abcdef0123456789abcdef01234567 Mon Sep 17 00:00:00 2001
From: Jane Doe <jane@example.com>
Date: Mon, 17 Sep 2001 12:34:56 +0200
Subject: [PATCH] Approximate pi with more
 sides

Use a polygon with more sides.

This is closer.

";

/// The patch names line 1 for a hunk that belongs at line 6.
const DRIFTED_DIFF: &str = "diff --git a/approx_pi.rs b/approx_pi.rs
index 1111111..2222222 100644
--- a/approx_pi.rs
+++ b/approx_pi.rs
@@ -1,5 +1,5 @@
 
 fn main() {
-    for sides in 0..16 {
+    for sides in 0..32 {
         println!(\"{} sides: {}\", sides, polygon_apothem_area(1.0, sides));
     }
-- 
2.30.0

";

fn message(diff: &str) -> String {
    format!("{}{}", HEADER, diff)
}

/// Runs the engine against a tree that holds `files`.
fn apply(
    email: &EmailMessage,
    files: &[(&str, &str)],
) -> Result<Vec<TreeEdit>, PatchApplyError> {
    let mut state = email.begin_apply();
    let mut base = None;
    loop {
        match email.apply_commit(&mut state, base.take())? {
            ApplyRequest::Commit => return Ok(state.into_edits()),
            ApplyRequest::Blob { path } => {
                base = files
                    .iter()
                    .find(|(name, _)| *name == path)
                    .map(|(_, contents)| contents.as_bytes().to_vec());
                if base.is_none() {
                    // The engine is told that the blob is missing.
                    return match email.apply_commit(&mut state, None) {
                        Err(e) => Err(e),
                        Ok(_) => panic!("a missing blob must fail the delta"),
                    };
                }
            }
        }
    }
}

#[test]
fn message_is_parsed() {
    let email = EmailMessage::parse(&message(DRIFTED_DIFF)).unwrap();
    assert_eq!(email.origin(), "0123456789abcdef0123456789abcdef01234567");
    assert_eq!(email.author_name(), "Jane Doe");
    assert_eq!(email.author_email(), "jane@example.com");
    assert_eq!(email.message_summary(), "Approximate pi with more sides");
    assert_eq!(
        email.message_tail(),
        "Use a polygon with more sides.\n\nThis is closer."
    );
    assert_eq!(
        email.full_message(),
        "Approximate pi with more sides\n\nUse a polygon with more sides.\n\nThis is closer."
    );
    // 2001-09-17 12:34:56 +02:00
    assert_eq!(email.timestamp(), 1000722896);
    assert_eq!(email.offset_minutes(), 120);
    assert_eq!(email.delta_count(), 1);
    let desc = email.describe_delta(0).unwrap();
    assert_eq!(desc.delta_status, DeltaStatus::Modified);
    assert_eq!(desc.old_path(), Some("approx_pi.rs"));
    assert_eq!(desc.new_path(), Some("approx_pi.rs"));
    assert_eq!(desc.describe(), "modified approx_pi.rs (#1)");
}

#[test]
fn message_without_body_has_only_its_summary() {
    let text = "From abc Mon Sep 17 00:00:00 2001
From: A <a@b>
Date: Tue, 2 Jan 2024 03:04:05 -0530
Subject: No body


diff --git a/x b/x
--- a/x
+++ b/x
@@ -1 +1 @@
-a
+b
";
    let email = EmailMessage::parse(text).unwrap();
    assert_eq!(email.message_summary(), "No body");
    assert_eq!(email.message_tail(), "");
    assert_eq!(email.full_message(), "No body");
    assert_eq!(email.offset_minutes(), -330);
}

#[test]
pub fn approx_pi_patch() {
    let email = EmailMessage::parse(&message(DRIFTED_DIFF)).unwrap();
    let edits = apply(&email, &[("approx_pi.rs", APPROX_PI)]).unwrap();
    assert_eq!(edits.len(), 1);
    match &edits[0] {
        TreeEdit::Upsert { path, contents } => {
            assert_eq!(path, "approx_pi.rs");
            assert_eq!(
                String::from_utf8(contents.clone()).unwrap(),
                APPROX_PI.replace("0..16", "0..32")
            );
        }
        other => panic!("unexpected edit {:?}", other),
    }
}

#[test]
fn mismatched_context_fails_without_an_edit() {
    let email = EmailMessage::parse(&message(DRIFTED_DIFF)).unwrap();
    let changed = APPROX_PI.replace("fn main() {", "fn start() {");
    match apply(&email, &[("approx_pi.rs", &changed)]) {
        Err(PatchApplyError::FailDelta { delta, cause }) => {
            assert_eq!(delta.describe(), "modified approx_pi.rs (#1)");
            assert!(matches!(cause, DeltaApplyError::FailApplyPatch { .. }));
        }
        other => panic!("unexpected outcome {:?}", other),
    }
}

#[test]
fn missing_original_fails_the_delta() {
    let email = EmailMessage::parse(&message(DRIFTED_DIFF)).unwrap();
    match apply(&email, &[]) {
        Err(PatchApplyError::FailDelta { cause, .. }) => match cause {
            DeltaApplyError::MissingOriginalFile { path } => assert_eq!(path, "approx_pi.rs"),
            other => panic!("unexpected cause {:?}", other),
        },
        other => panic!("unexpected outcome {:?}", other),
    }
}

const ADD_AND_RENAME: &str = "diff --git a/new.txt b/new.txt
new file mode 100644
index 0000000..1111111
--- /dev/null
+++ b/new.txt
@@ -0,0 +1,2 @@
+first
+second
diff --git a/from.txt b/to.txt
similarity index 90%
rename from from.txt
rename to to.txt
index 1111111..2222222 100644
--- a/from.txt
+++ b/to.txt
@@ -1 +1 @@
-a
+b
";

#[test]
fn an_added_file_needs_no_blob_and_a_renamed_one_is_stored_at_its_new_path() {
    let email = EmailMessage::parse(&message(ADD_AND_RENAME)).unwrap();
    assert_eq!(email.delta_count(), 2);
    assert_eq!(
        email.describe_delta(0).unwrap().describe(),
        "added new.txt (#1)"
    );
    assert_eq!(
        email.describe_delta(1).unwrap().describe(),
        "renamed from.txt -> to.txt (#2)"
    );
    let mut state = email.begin_apply();
    // The first delta is done without a blob; the second asks for one.
    match email.apply_commit(&mut state, None).unwrap() {
        ApplyRequest::Blob { path } => assert_eq!(path, "from.txt"),
        other => panic!("unexpected request {:?}", other),
    }
    assert_eq!(state.edits().len(), 1);
    match email
        .apply_commit(&mut state, Some(b"a\n".to_vec()))
        .unwrap()
    {
        ApplyRequest::Commit => {}
        other => panic!("unexpected request {:?}", other),
    }
    let edits = state.into_edits();
    assert_eq!(edits.len(), 2);
    match &edits[0] {
        TreeEdit::Upsert { path, contents } => {
            assert_eq!(path, "new.txt");
            assert_eq!(contents, b"first\nsecond\n");
        }
        other => panic!("unexpected edit {:?}", other),
    }
    match &edits[1] {
        TreeEdit::Upsert { path, contents } => {
            assert_eq!(path, "to.txt");
            assert_eq!(contents, b"b\n");
        }
        other => panic!("unexpected edit {:?}", other),
    }
}

fn side(path: &str) -> RawFile {
    RawFile {
        path: Some(path.as_bytes().to_vec()),
        binary: false,
    }
}

fn missing_side() -> RawFile {
    RawFile {
        path: None,
        binary: false,
    }
}

const STATUSES: [DeltaStatus; 11] = [
    DeltaStatus::Unmodified,
    DeltaStatus::Added,
    DeltaStatus::Deleted,
    DeltaStatus::Modified,
    DeltaStatus::Renamed,
    DeltaStatus::Copied,
    DeltaStatus::Ignored,
    DeltaStatus::Untracked,
    DeltaStatus::Typechange,
    DeltaStatus::Unreadable,
    DeltaStatus::Conflicted,
];

#[test]
fn absolute_paths_are_rejected() {
    for status in STATUSES {
        match DeltaDesc::from_git(Some(2), status, side("/etc/motd"), side("motd")) {
            Err(BadPathError::AbsolutePath(e)) => {
                assert_eq!(e.path, "/etc/motd");
                assert_eq!(e.role, Some("old_file"));
                assert_eq!(
                    e.message(),
                    "Absolute paths are forbidden for old_file (path `/etc/motd`)"
                );
            }
            other => panic!("unexpected outcome {:?}", other),
        }
        match DeltaDesc::from_git(None, status, missing_side(), side("/etc/motd")) {
            Err(e) => match bad_path(e) {
                PatchApplyError::ForbiddenAbsolutePath(e) => {
                    assert_eq!(e.path, "/etc/motd");
                    assert_eq!(e.role, Some("new_file"));
                }
                other => panic!("unexpected error {:?}", other),
            },
            other => panic!("unexpected outcome {:?}", other),
        }
        let checked = DeltaDesc::from_checks(
            None,
            status,
            PathCheck::Relative {
                path: "a".to_string(),
            },
            false,
            PathCheck::Absolute {
                path: "b".to_string(),
            },
            false,
        );
        assert!(matches!(checked, Err(BadPathError::AbsolutePath(_))));
    }
    assert!(matches!(
        check_path(Some(b"/etc/motd".to_vec())),
        PathCheck::Absolute { .. }
    ));
    assert!(matches!(
        check_path(Some(b"etc/motd".to_vec())),
        PathCheck::Relative { .. }
    ));
    assert!(matches!(check_path(None), PathCheck::Missing));
    assert!(matches!(
        check_path(Some(vec![0xff, b'a'])),
        PathCheck::Invalid { .. }
    ));
    match DeltaFileDesc::try_from(side("/x")) {
        Err(BadPathError::AbsolutePath(e)) => {
            assert_eq!(e.role, None);
            assert_eq!(
                e.message(),
                "Absolute paths are forbidden for ? (path `/x`)"
            );
        }
        other => panic!("unexpected outcome {:?}", other),
    }
}

#[test]
fn relative_paths_are_described() {
    let desc = DeltaDesc::from_git(
        Some(0),
        DeltaStatus::Copied,
        side("a/b.txt"),
        RawFile {
            path: Some("c/d.bin".as_bytes().to_vec()),
            binary: true,
        },
    )
    .unwrap();
    assert_eq!(desc.old_path(), Some("a/b.txt"));
    assert_eq!(desc.new_path(), Some("c/d.bin"));
    assert!(desc.new_file.binary);
    assert_eq!(desc.describe(), "copied a/b.txt -> binary c/d.bin (#1)");
    let desc = DeltaDesc::from_git(None, DeltaStatus::Typechange, side("x"), side("x")).unwrap();
    assert_eq!(desc.describe(), "type changed x");
    let desc =
        DeltaDesc::from_git(Some(41), DeltaStatus::Deleted, side("x"), missing_side()).unwrap();
    assert_eq!(desc.describe(), "removed x (#42)");
    let desc =
        DeltaDesc::from_git(Some(9), DeltaStatus::Added, side("x"), missing_side()).unwrap();
    assert_eq!(desc.describe(), "added /dev/null (#10)");
}

#[test]
fn a_path_that_is_not_utf8_fails_its_delta_and_leaves_the_edits_before_it_unwritten() {
    let diff = "diff --git a/new.txt b/new.txt
new file mode 100644
index 0000000..1111111
--- /dev/null
+++ b/new.txt
@@ -0,0 +1 @@
+first
diff --git \"a/\\377.txt\" \"b/\\377.txt\"
index 1111111..2222222 100644
--- \"a/\\377.txt\"
+++ \"b/\\377.txt\"
@@ -1 +1 @@
-a
+b
";
    let email = EmailMessage::parse(&message(diff)).unwrap();
    assert_eq!(email.delta_count(), 2);
    let mut state = email.begin_apply();
    match email.apply_commit(&mut state, None) {
        Err(PatchApplyError::InvalidUtf8Path { path }) => {
            assert_eq!(path, vec![0xff, b'.', b't', b'x', b't'])
        }
        other => panic!("unexpected outcome {:?}", other),
    }
    // The delta before is planned, and nothing asks for a commit.
    assert_eq!(state.edits().len(), 1);
}

#[test]
fn a_deletion_removes_the_old_path() {
    // A deleted file has no new side, whatever the diff names there.
    let desc =
        DeltaDesc::from_git(Some(0), DeltaStatus::Deleted, side("old.txt"), side("old.txt"))
            .unwrap();
    assert_eq!(desc.old_path(), Some("old.txt"));
    assert_eq!(desc.new_path(), None);
    match delta_removal(&desc) {
        Ok(Some(TreeEdit::Remove { path })) => assert_eq!(path, "old.txt"),
        other => panic!("unexpected outcome {:?}", other),
    }
    let mut with_new_side = desc.clone();
    with_new_side.new_file.path = Some("old.txt".to_string());
    assert!(matches!(
        delta_removal(&with_new_side),
        Err(DeltaApplyError::UnexpectedState)
    ));
    let pathless =
        DeltaDesc::from_git(None, DeltaStatus::Deleted, missing_side(), missing_side()).unwrap();
    assert!(matches!(
        delta_removal(&pathless),
        Err(DeltaApplyError::UnexpectedState)
    ));
    // An added file has no old side either.
    let added =
        DeltaDesc::from_git(None, DeltaStatus::Added, side("new.txt"), side("new.txt")).unwrap();
    assert_eq!(added.old_path(), None);
    assert_eq!(added.new_path(), Some("new.txt"));
}

const DELETE: &str = "diff --git a/old.txt b/old.txt
deleted file mode 100644
index 1111111..0000000
--- a/old.txt
+++ /dev/null
@@ -1 +0,0 @@
-gone
";

#[test]
fn a_deleted_file_needs_no_blob() {
    let email = EmailMessage::parse(&message(DELETE)).unwrap();
    assert_eq!(email.delta_count(), 1);
    assert_eq!(
        email.describe_delta(0).unwrap().describe(),
        "removed old.txt (#1)"
    );
    let edits = apply(&email, &[]).unwrap();
    match &edits[..] {
        [TreeEdit::Remove { path }] => assert_eq!(path, "old.txt"),
        other => panic!("unexpected edits {:?}", other),
    }
}

#[test]
fn only_some_statuses_are_applied() {
    for status in STATUSES {
        let desc = DeltaDesc::from_git(None, status, side("x"), side("x")).unwrap();
        let outcome = delta_removal(&desc);
        match status {
            DeltaStatus::Deleted => assert!(matches!(outcome, Ok(Some(_)))),
            DeltaStatus::Added
            | DeltaStatus::Modified
            | DeltaStatus::Renamed
            | DeltaStatus::Copied => assert!(matches!(outcome, Ok(None))),
            other => match outcome {
                Err(DeltaApplyError::UnexpectedDeltaStatus { status }) => {
                    assert_eq!(status, other)
                }
                unexpected => panic!("unexpected outcome {:?}", unexpected),
            },
        }
    }
}

#[test]
fn a_delta_without_patch_text_is_binary_or_unexpected() {
    let text = DeltaDesc::from_git(None, DeltaStatus::Modified, side("x"), side("x")).unwrap();
    assert!(matches!(
        patch_text(&text, Ok(None)),
        Err(DeltaApplyError::UnexpectedState)
    ));
    let mut binary = text.clone();
    binary.new_file.binary = true;
    assert!(matches!(
        patch_text(&binary, Ok(None)),
        Err(DeltaApplyError::BinaryDelta)
    ));
    assert_eq!(
        patch_text(&binary, Ok(Some(b"patch".to_vec()))).unwrap(),
        b"patch"
    );
    let failed = git2::Error::from_str("no patch");
    assert!(matches!(
        patch_text(&text, Err(failed)),
        Err(DeltaApplyError::UnexpectedGit { .. })
    ));
}

#[test]
fn a_pending_patch_is_applied_to_its_blob() {
    let pending = || PendingPatch {
        source: "a.txt".to_string(),
        target: "b.txt".to_string(),
        patch: b"--- a/a.txt\n+++ b/b.txt\n@@ -1,2 +1,2 @@\n one\n-two\n+2\n".to_vec(),
    };
    match finish_delta(pending(), Some(b"one\ntwo\n".to_vec())) {
        Ok(TreeEdit::Upsert { path, contents }) => {
            assert_eq!(path, "b.txt");
            assert_eq!(contents, b"one\n2\n");
        }
        other => panic!("unexpected outcome {:?}", other),
    }
    // Lines that were put before the hunk do not keep it from its place.
    match finish_delta(pending(), Some(b"zero\nzero\nzero\none\ntwo\n".to_vec())) {
        Ok(TreeEdit::Upsert { contents, .. }) => {
            assert_eq!(contents, b"zero\nzero\nzero\none\n2\n")
        }
        other => panic!("unexpected outcome {:?}", other),
    }
    assert!(matches!(
        finish_delta(pending(), Some(b"one\nthree\n".to_vec())),
        Err(DeltaApplyError::FailApplyPatch { .. })
    ));
    match finish_delta(pending(), None) {
        Err(DeltaApplyError::MissingOriginalFile { path }) => assert_eq!(path, "a.txt"),
        other => panic!("unexpected outcome {:?}", other),
    }
    let broken = PendingPatch {
        source: "a.txt".to_string(),
        target: "b.txt".to_string(),
        patch: b"@@ this is no patch\n".to_vec(),
    };
    assert!(matches!(
        finish_delta(broken, Some(b"one\n".to_vec())),
        Err(DeltaApplyError::FailParseGitDelta { .. })
    ));
}

#[test]
fn header_lines_are_checked_in_order() {
    let diff = DRIFTED_DIFF;
    let parse = |head: &str| EmailMessage::parse(&format!("{}{}", head, diff));
    match parse("") {
        Err(InvalidEmailMessage::InvalidHeader { expected, actual }) => {
            assert_eq!(expected, "header");
            assert_eq!(actual, "diff --git a/approx_pi.rs b/approx_pi.rs");
        }
        other => panic!("unexpected outcome {:?}", other.err()),
    }
    match parse("From 0123456789abcdef0123456789abcdef012345678 Mon Sep 17 00:00:00 2001\n") {
        Err(InvalidEmailMessage::InvalidHeader { expected, .. }) => assert_eq!(expected, "header"),
        other => panic!("unexpected outcome {:?}", other.err()),
    }
    match parse("From abc Mon Sep 17 00:00:00 2001\nFrom: <a@b>\n") {
        Err(InvalidEmailMessage::InvalidHeader { expected, actual }) => {
            assert_eq!(expected, "author");
            assert_eq!(actual, "From: <a@b>");
        }
        other => panic!("unexpected outcome {:?}", other.err()),
    }
    match parse("From abc Mon Sep 17 00:00:00 2001\nFrom: A <a@b>\nDate: today\n") {
        Err(InvalidEmailMessage::InvalidHeader { expected, .. }) => assert_eq!(expected, "date"),
        other => panic!("unexpected outcome {:?}", other.err()),
    }
    match parse(
        "From abc Mon Sep 17 00:00:00 2001\nFrom: A <a@b>\nDate: Mon, 17 Sep 2001 12:34:56 +0200\nTitle: x\n",
    ) {
        Err(InvalidEmailMessage::InvalidHeader { expected, .. }) => {
            assert_eq!(expected, "subject")
        }
        other => panic!("unexpected outcome {:?}", other.err()),
    }
    match parse(
        "From abc Mon Sep 17 00:00:00 2001\nFrom: A <a@b>\nDate: someday +0200\nSubject: x\n\n\n",
    ) {
        Err(InvalidEmailMessage::InvalidDate { actual, .. }) => {
            assert_eq!(actual, "someday +0200")
        }
        other => panic!("unexpected outcome {:?}", other.err()),
    }
}

#[test]
fn a_message_without_summary_is_refused() {
    let diff = "diff --git a/x b/x\n--- a/x\n+++ b/x\n@@ -1 +1 @@\n-a\n+b\n";
    let head = "From abc Mon Sep 17 00:00:00 2001\nFrom: A <a@b>\nDate: Mon, 17 Sep 2001 12:34:56 +0200\n";
    match EmailMessage::parse(&format!("{}Subject: [PATCH] \n\n\n{}", head, diff)) {
        Err(InvalidEmailMessage::InvalidHeader { expected, actual }) => {
            assert_eq!(expected, "subject");
            assert_eq!(actual, "Subject: [PATCH] ");
        }
        other => panic!("unexpected outcome {:?}", other.err()),
    }
    // Lines that continue the subject are part of the summary.
    let email =
        EmailMessage::parse(&format!("{}Subject: \nlate\n\n\n{}", head, diff)).unwrap();
    assert_eq!(email.message_summary(), "late");
}

#[test]
fn a_message_that_ends_early_is_refused() {
    let diff = "diff --git a/x b/x\n--- a/x\n+++ b/x\n@@ -1 +1 @@\n-a\n+b\n";
    // The diff is found by the diff parser, but no message leads up to it.
    match EmailMessage::parse(diff) {
        Err(InvalidEmailMessage::InvalidHeader { expected, .. }) => assert_eq!(expected, "header"),
        other => panic!("unexpected outcome {:?}", other.err()),
    }
    let head = "From abc Mon Sep 17 00:00:00 2001\nFrom: A <a@b>\nDate: Mon, 17 Sep 2001 12:34:56 +0200\nSubject: x\n";
    match EmailMessage::parse(&format!("{}{}", head, diff)) {
        Err(InvalidEmailMessage::UnexpectedEof { expected }) => {
            assert_eq!(expected, "diff after subject")
        }
        other => panic!("unexpected outcome {:?}", other.err()),
    }
    match EmailMessage::parse(&format!("{}\nbody\n{}", head, diff)) {
        Err(InvalidEmailMessage::UnexpectedEof { expected }) => {
            assert_eq!(expected, "diff after message")
        }
        other => panic!("unexpected outcome {:?}", other.err()),
    }
}

#[test]
fn a_diff_that_cannot_be_read_is_refused_last() {
    let broken = "diff --git a/x b/x\n--- a/x\n+++ b/x\n@@ -1 +1 @@ broken\n";
    match EmailMessage::parse(&message(broken)) {
        Err(InvalidEmailMessage::Git(_)) => {}
        other => panic!("unexpected outcome {:?}", other.err()),
    }
    // The lines of the message are read before the diff is.
    match EmailMessage::parse(broken) {
        Err(InvalidEmailMessage::InvalidHeader { expected, .. }) => assert_eq!(expected, "header"),
        other => panic!("unexpected outcome {:?}", other.err()),
    }
    let bad_date = message(broken).replace("Mon, 17 Sep 2001 12:34:56 +0200", "someday +0200");
    match EmailMessage::parse(&bad_date) {
        Err(InvalidEmailMessage::InvalidDate { actual, .. }) => assert_eq!(actual, "someday +0200"),
        other => panic!("unexpected outcome {:?}", other.err()),
    }
}

#[test]
fn a_text_without_diff_is_refused_for_the_line_that_is_missing() {
    match EmailMessage::parse("From 0123abc Mon Sep 17 00:00:00 2001\n") {
        Err(InvalidEmailMessage::UnexpectedEof { expected }) => assert_eq!(expected, "author"),
        other => panic!("unexpected outcome {:?}", other.err()),
    }
    match EmailMessage::parse("") {
        Err(InvalidEmailMessage::UnexpectedEof { expected }) => assert_eq!(expected, "header"),
        other => panic!("unexpected outcome {:?}", other.err()),
    }
    match EmailMessage::parse(
        "From 0123abc Mon Sep 17 00:00:00 2001\nFrom: A B <a@b.c>\nDate: Mon, 01 Jan 2024 12:00:00 GMT\n",
    ) {
        Err(InvalidEmailMessage::InvalidHeader { expected, actual }) => {
            assert_eq!(expected, "date");
            assert_eq!(actual, "Date: Mon, 01 Jan 2024 12:00:00 GMT");
        }
        other => panic!("unexpected outcome {:?}", other.err()),
    }
    match EmailMessage::parse(
        "From 0123abc Mon Sep 17 00:00:00 2001\nFrom: A B <a@b.c>\nDate: Mon, 01 Jan 2024 12:00:00 +0000\nSubject: [PATCH] No diff\n\nThe message goes on\n\nand on.\n",
    ) {
        Err(InvalidEmailMessage::UnexpectedEof { expected }) => {
            assert_eq!(expected, "diff after message")
        }
        other => panic!("unexpected outcome {:?}", other.err()),
    }
}

#[test]
fn a_diff_within_the_message_is_no_part_of_the_diff() {
    let quoted = "From abc Mon Sep 17 00:00:00 2001
From: A <a@b>
Date: Mon, 17 Sep 2001 12:34:56 +0200
Subject: [PATCH] Quote a patch

The message quotes a change:
--- a/quoted.txt
+++ b/quoted.txt
@@ -1 +1 @@
-a
+b

diff --git a/x b/x
--- a/x
+++ b/x
@@ -1 +1 @@
-a
+b
";
    let email = EmailMessage::parse(quoted).unwrap();
    assert_eq!(email.delta_count(), 1);
    assert_eq!(email.describe_delta(0).unwrap().new_path(), Some("x"));
    assert!(email.message_tail().contains("+++ b/quoted.txt"));
}

#[test]
fn a_failing_delta_is_described_with_its_place() {
    let email = EmailMessage::parse(&message(ADD_AND_RENAME)).unwrap();
    let mut state = email.begin_apply();
    match email.apply_commit(&mut state, None).unwrap() {
        ApplyRequest::Blob { path } => assert_eq!(path, "from.txt"),
        other => panic!("unexpected request {:?}", other),
    }
    // The tree has no such file: the patch that waited fails.
    match email.apply_commit(&mut state, None) {
        Err(PatchApplyError::FailDelta { delta, cause }) => {
            assert_eq!(delta.delta_index, Some(1));
            assert_eq!(delta.describe(), "renamed from.txt -> to.txt (#2)");
            match cause {
                DeltaApplyError::MissingOriginalFile { path } => assert_eq!(path, "from.txt"),
                other => panic!("unexpected cause {:?}", other),
            }
        }
        other => panic!("unexpected outcome {:?}", other),
    }
    assert_eq!(state.edits().len(), 1);

    // A blob that the patch does not fit fails the same delta.
    let mut state = email.begin_apply();
    email.apply_commit(&mut state, None).unwrap();
    match email.apply_commit(&mut state, Some(b"other\n".to_vec())) {
        Err(PatchApplyError::FailDelta { delta, cause }) => {
            assert_eq!(delta.delta_index, Some(1));
            assert!(matches!(cause, DeltaApplyError::FailApplyPatch { .. }));
        }
        other => panic!("unexpected outcome {:?}", other),
    }
}
