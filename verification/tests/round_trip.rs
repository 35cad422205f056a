use gitpatcher::apply_patches::apply::{ApplyRequest, TreeEdit};
use gitpatcher::apply_patches::EmailMessage;
use gitpatcher::format_patches::format::InvalidCommitMessage;
use gitpatcher::format_patches::{cleanup_patch, CleanupPatchErr, PatchFormatError, PatchFormatter};
use gitpatcher::regenerate_patches::{is_trivial_patch_change, tool_version};

const BEFORE: &str = "alpha\nbeta\ngamma\n";
const AFTER: &str = "alpha\nBETA\ngamma\ndelta\n";

fn rendered(version: &str) -> String {
    format!(
        "From 89abcdef0123456789abcdef0123456789abcdef Mon Sep 17 00:00:00 2001
From: Jane Doe <jane@example.com>
Date: Sat, 1 Jun 2024 08:00:00 +0000
Subject: [PATCH] Shout beta, add delta

The second letter is the loudest.
---
 greek.txt | 3 ++-
 1 file changed, 2 insertions(+), 1 deletion(-)

diff --git a/greek.txt b/greek.txt
index 1111111..2222222 100644
--- a/greek.txt
+++ b/greek.txt
@@ -1,3 +1,4 @@
 alpha
-beta
+BETA
 gamma
+delta
--
{}

",
        version
    )
}

#[test]
fn a_rendered_commit_is_named_cleaned_parsed_and_applied() {
    let mut formatter = PatchFormatter::new();
    let head = formatter
        .generate(Some("Shout beta, add delta\n\nThe second letter is the loudest.\n"))
        .unwrap();
    assert_eq!(head.patch_name, "0001-Shout-beta-add-delta.patch");
    assert_eq!(head.summary, "Shout beta, add delta");
    assert_eq!(head.body, "The second letter is the loudest.");
    let text = PatchFormatter::finish(&head.patch_name, rendered("libgit2 1.9.7").as_bytes())
        .unwrap();
    let text = String::from_utf8(text).unwrap();
    let email = EmailMessage::parse(&text).unwrap();
    assert_eq!(email.message_summary(), head.summary);
    assert_eq!(email.message_tail(), head.body);
    assert_eq!(email.timestamp(), 1717228800);
    assert_eq!(email.offset_minutes(), 0);
    let mut state = email.begin_apply();
    match email.apply_commit(&mut state, None).unwrap() {
        ApplyRequest::Blob { path } => assert_eq!(path, "greek.txt"),
        other => panic!("unexpected request {:?}", other),
    }
    assert!(matches!(
        email
            .apply_commit(&mut state, Some(BEFORE.as_bytes().to_vec()))
            .unwrap(),
        ApplyRequest::Commit
    ));
    match &state.edits()[..] {
        [TreeEdit::Upsert { path, contents }] => {
            assert_eq!(path, "greek.txt");
            assert_eq!(contents, AFTER.as_bytes());
        }
        other => panic!("unexpected edits {:?}", other),
    }
}

#[test]
fn patches_are_numbered_in_the_order_of_their_commits() {
    let mut formatter = PatchFormatter::new();
    assert_eq!(
        formatter.generate(Some("First")).unwrap().patch_name,
        "0001-First.patch"
    );
    assert_eq!(
        formatter.generate(None),
        Err(PatchFormatError::InvalidCommitMessage {
            cause: InvalidCommitMessage::InvalidUtf8
        })
    );
    assert_eq!(
        formatter.generate(Some("")),
        Err(PatchFormatError::InvalidCommitMessage {
            cause: InvalidCommitMessage::EmptyMessage
        })
    );
    assert_eq!(
        formatter.generate(Some("\n \n")),
        Err(PatchFormatError::InvalidCommitMessage {
            cause: InvalidCommitMessage::BlankMessage
        })
    );
    // A commit that got no patch got no number either.
    assert_eq!(
        formatter.generate(Some("Second")).unwrap().patch_name,
        "0002-Second.patch"
    );
    assert_eq!(
        PatchFormatter::finish("0002-Second.patch", b"no subject"),
        Err(PatchFormatError::PatchCleanupError {
            patch_file: "0002-Second.patch".to_string(),
            cause: CleanupPatchErr::UnexpectedEof {
                expected: "Subject line"
            }
        })
    );
}

/// The lines by which `new` differs from `old`, where both have the same
/// number of lines.
fn line_diff(old: &str, new: &str) -> String {
    let mut diff = String::new();
    for (a, b) in old.lines().zip(new.lines()) {
        if a == b {
            diff.push_str(&format!(" {}\n", a));
        } else {
            diff.push_str(&format!("-{}\n+{}\n", a, b));
        }
    }
    diff
}

#[test]
fn regenerating_with_another_tool_version_changes_nothing_of_note() {
    let old = String::from_utf8(cleanup_patch(rendered("libgit2 1.7.2").as_bytes()).unwrap())
        .unwrap();
    let new = String::from_utf8(cleanup_patch(rendered("libgit2 1.9.7").as_bytes()).unwrap())
        .unwrap();
    assert_ne!(old, new);
    let version = tool_version(&new).unwrap();
    assert_eq!(version, "libgit2 1.9.7");
    assert!(is_trivial_patch_change(&line_diff(&old, &new), &version));
    assert!(is_trivial_patch_change(&line_diff(&new, &new), &version));
    let edited = new.replace("+delta", "+epsilon");
    assert!(!is_trivial_patch_change(&line_diff(&old, &edited), &version));
    assert!(!is_trivial_patch_change(&line_diff(&new, &edited), &version));
}
