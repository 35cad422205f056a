use gitpatcher::apply_patches::bulk::{name_precedes, BulkApplyError, BulkPatchApply};
use gitpatcher::apply_patches::InvalidEmailMessage;

fn patch(summary: &str) -> Vec<u8> {
    format!(
        "From abc Mon Sep 17 00:00:00 2001
From: A <a@b>
Date: Mon, 17 Sep 2001 12:34:56 +0200
Subject: [PATCH] {}


diff --git a/x b/x
--- a/x
+++ b/x
@@ -1 +1 @@
-a
+b
",
        summary
    )
    .into_bytes()
}

fn chars(s: &str) -> Vec<char> {
    s.chars().collect()
}

#[test]
fn patch_files_have_the_extension_patch() {
    assert_eq!(
        BulkPatchApply::patch_name("0001-a.patch"),
        Some("0001-a".to_string())
    );
    assert_eq!(BulkPatchApply::patch_name("..patch"), Some(".".to_string()));
    assert_eq!(BulkPatchApply::patch_name(".patch"), None);
    assert_eq!(BulkPatchApply::patch_name("0001-a.patch.orig"), None);
    assert_eq!(BulkPatchApply::patch_name("patch"), None);
    assert_eq!(BulkPatchApply::patch_name(""), None);
}

#[test]
fn names_are_compared_as_strings_are() {
    let words = ["", "0001-a", "0001-a-b", "0001-b", "0002", "10", "2", "a", "é", "z"];
    for a in words {
        for b in words {
            assert_eq!(name_precedes(&chars(a), &chars(b)), a <= b, "{:?} {:?}", a, b);
        }
    }
}

#[test]
fn patches_are_applied_in_the_order_of_their_names() {
    let mut bulk = BulkPatchApply::new("patches".to_string());
    for name in ["0002-b", "0001-a-b", "0010-c", "0001-a", "0002-b"] {
        bulk.buffer(
            name.to_string(),
            format!("patches/{}.patch", name),
            patch(name),
        )
        .unwrap();
    }
    let ordered = bulk.apply_all();
    let listed: Vec<(&str, &str)> = ordered
        .iter()
        .map(|p| (p.patch_name.as_str(), p.email.message_summary()))
        .collect();
    assert_eq!(
        listed,
        vec![
            ("0001-a", "0001-a"),
            ("0001-a-b", "0001-a-b"),
            ("0002-b", "0002-b"),
            ("0002-b", "0002-b"),
            ("0010-c", "0010-c"),
        ]
    );
    assert_eq!(ordered[0].patch_file, "patches/0001-a.patch");
}

#[test]
fn a_patch_that_cannot_be_read_is_not_buffered() {
    let mut bulk = BulkPatchApply::new("patches".to_string());
    match bulk.buffer("a".to_string(), "patches/a.patch".to_string(), vec![0xff]) {
        Err(BulkApplyError::PatchContentsInvalidUtf8 { patch_file }) => {
            assert_eq!(patch_file, "patches/a.patch")
        }
        other => panic!("unexpected outcome {:?}", other),
    }
    match bulk.buffer(
        "b".to_string(),
        "patches/b.patch".to_string(),
        String::from_utf8(patch("b")).unwrap().replace("From abc", "Form abc").into_bytes(),
    ) {
        Err(BulkApplyError::FailedParsePatch { patch_file, cause }) => {
            assert_eq!(patch_file, "patches/b.patch");
            assert!(matches!(cause, InvalidEmailMessage::InvalidHeader { .. }));
        }
        other => panic!("unexpected outcome {:?}", other),
    }
    assert!(bulk.apply_all().is_empty());
}
