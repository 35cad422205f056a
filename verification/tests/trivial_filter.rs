use gitpatcher::regenerate_patches::{
    explained, hex_char, is_trivial_line, is_trivial_patch_change, push_diff_line, reverts,
    tool_version, trivial_patches, RegeneratedPatch,
};
use gitpatcher::utils::RememberLast;

fn chars(s: &str) -> Vec<char> {
    s.chars().collect()
}

#[test]
fn lines_of_the_patch_frame_are_trivial() {
    for line in [
        "-From 0123abc Mon Sep 17 00:00:00 2001",
        "+From A1 Mon",
        "---- a/src/main.rs",
        "++++ b/src/main.rs",
        "-index 1111111..2222222 100644",
        "+index",
        " text --- a text",
    ] {
        assert!(is_trivial_line(&chars(line)), "{:?}", line);
    }
    for line in [
        "+From nothing",
        "+From ",
        "+from 0123",
        "index",
        "index 1111111",
        "+ index",
        "+-- a",
        "+++ c",
        "+2.30.0",
        "",
    ] {
        assert!(!is_trivial_line(&chars(line)), "{:?}", line);
    }
    assert!(hex_char('0') && hex_char('9') && hex_char('a') && hex_char('F'));
    assert!(!hex_char('g') && !hex_char('G') && !hex_char(' ') && !hex_char('/'));
}

#[test]
fn a_change_of_the_tool_version_is_trivial() {
    let version = "2.31.1";
    assert!(is_trivial_patch_change("", version));
    assert!(is_trivial_patch_change(
        "@@ -1,3 +1,3 @@\n context\n-From 0123 Mon Sep 17 00:00:00 2001\n+From 4567 Mon Sep 17 00:00:00 2001\n",
        version
    ));
    assert!(is_trivial_patch_change("+2.31.1\n", version));
    assert!(is_trivial_patch_change("+  2.31.1 \r\n", version));
    assert!(is_trivial_patch_change(
        " -- \n-2.30.0\n+2.31.1\n",
        version
    ));
    assert!(is_trivial_patch_change(
        "-index 1111111..2222222 100644\n+index 1111111..3333333 100644\n-2.30.0\n+2.31.1\n+\n",
        version
    ));
    assert!(is_trivial_patch_change(
        "--- \n-2.30.0\n+-- \n+2.31.1\n",
        version
    ));
    assert!(is_trivial_patch_change(
        "--- \n-2.30.0\n+-- \n+2.31.1\n+\n",
        version
    ));
}

#[test]
fn a_change_of_content_is_not_trivial() {
    let version = "2.31.1";
    assert!(!is_trivial_patch_change("+new line\n", version));
    assert!(!is_trivial_patch_change("-2.30.0\n", version));
    assert!(!is_trivial_patch_change("-2.30.0\n+2.31.0\n", version));
    assert!(!is_trivial_patch_change(
        "+new line\n-2.30.0\n+2.31.1\n",
        version
    ));
    assert!(!is_trivial_patch_change(
        "-2.30.0\n+2.31.1\n+new line\n",
        version
    ));
    assert!(!is_trivial_patch_change(
        "-old\n+new\n--- \n-2.30.0\n+-- \n+2.31.1\n",
        version
    ));
    // A separator without its partner is no footer.
    assert!(!is_trivial_patch_change(
        "--- \n-2.30.0\n+2.31.1\n",
        version
    ));
    // A line that is added before the version line is content.
    assert!(!is_trivial_patch_change("+foo\n+2.31.1\n", version));
    assert!(!is_trivial_patch_change("+foo\n+2.31.1\n+\n", version));
    assert!(!is_trivial_patch_change(
        "--- \n+foo\n+-- \n+2.31.1\n",
        version
    ));
    // A separator that is removed alone has no partner.
    assert!(!is_trivial_patch_change("---\n+2.31.1\n", version));
    assert!(!is_trivial_patch_change("--- \n+2.31.1\n+\n", version));
    // A blank line and the version alone leave the former version out.
    assert!(!is_trivial_patch_change("+2.31.1\n+\n", version));
    assert!(!is_trivial_patch_change("+\n+\n", version));
}

#[test]
fn only_the_last_changes_are_remembered() {
    // Six significant changes, of which the last five look like a footer.
    let diff = "+content\n--- \n-2.30.0\n+-- \n+2.31.1\n+\n";
    assert!(is_trivial_patch_change(diff, "2.31.1"));
    let mut remember = RememberLast::new();
    for line in ["+content", "--- ", "-2.30.0", "+-- ", "+2.31.1"] {
        remember.remember(&chars(line));
    }
    assert!(!explained(&remember, &chars("2.31.1")));
    remember.remember(&chars("+"));
    assert!(explained(&remember, &chars("2.31.1")));
}

#[test]
fn the_tool_version_is_the_last_line_that_is_not_blank() {
    assert_eq!(
        tool_version("diff\n--\n2.31.1\n\n"),
        Some("2.31.1".to_string())
    );
    assert_eq!(
        tool_version("diff\n-- \nlibgit2 1.9.7\r\n"),
        Some("libgit2 1.9.7".to_string())
    );
    assert_eq!(tool_version("a\n  b  "), Some("b".to_string()));
    // Only the last line is passed over when it is blank.
    assert_eq!(tool_version("a\n\n\n"), Some("".to_string()));
    assert_eq!(tool_version("a\n"), None);
    assert_eq!(tool_version(""), None);
}

#[test]
fn diff_lines_are_collected_with_their_markers() {
    let mut text = String::new();
    push_diff_line(&mut text, 'H', "@@ -1 +1 @@\n");
    push_diff_line(&mut text, ' ', "context\n");
    push_diff_line(&mut text, '-', "old\n");
    push_diff_line(&mut text, '+', "new\n");
    push_diff_line(&mut text, '>', "\\ No newline at end of file\n");
    assert_eq!(
        text,
        "@@ -1 +1 @@\n context\n-old\n+new\n\\ No newline at end of file\n"
    );
}

#[test]
fn trivial_patches_are_put_back() {
    let patch = |contents: &str, diff: Option<&str>| RegeneratedPatch {
        contents: contents.to_string(),
        staged_diff: diff.map(|d| d.to_string()),
    };
    let contents = "From 0123 Mon Sep 17 00:00:00 2001\ndiff\n-- \n2.31.1\n\n";
    let patches = vec![
        patch(contents, None),
        patch(contents, Some("-2.30.0\n+2.31.1\n")),
        patch(contents, Some("-2.30.0\n+2.31.1\n+fix\n")),
        patch("one line\n", Some("")),
        patch(contents, Some("-From 01 Mon\n+From 02 Mon\n")),
    ];
    assert!(!reverts(&patches[0]));
    assert!(reverts(&patches[1]));
    assert!(!reverts(&patches[2]));
    assert!(!reverts(&patches[3]));
    assert!(reverts(&patches[4]));
    assert_eq!(trivial_patches(&patches), vec![1, 4]);
    assert_eq!(trivial_patches(&Vec::new()), Vec::<usize>::new());
}
