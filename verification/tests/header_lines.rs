use gitpatcher::apply_patches::email::match_header_line;
use gitpatcher::apply_patches::header::{
    parse_author_line, parse_begin_diff_line, parse_date_line, parse_header_line,
    parse_subject_line, AuthorInfo,
};
use gitpatcher::apply_patches::InvalidEmailMessage;

fn chars(s: &str) -> Vec<char> {
    s.chars().collect()
}

fn text(v: Option<Vec<char>>) -> Option<String> {
    v.map(|v| v.into_iter().collect())
}

#[test]
fn header_line_names_a_hash() {
    let header = |hash: &str| format!("From {} Mon Sep 17 00:00:00 2001", hash);
    assert_eq!(
        text(parse_header_line(&chars(&header("0123456789abcdefABCDEF")))),
        Some("0123456789abcdefABCDEF".to_string())
    );
    assert_eq!(
        text(parse_header_line(&chars(&header("a")))),
        Some("a".to_string())
    );
    let forty = "0123456789".repeat(4);
    assert_eq!(
        text(parse_header_line(&chars(&header(&forty)))),
        Some(forty.clone())
    );
    for bad in [
        header(""),
        header(&format!("{}0", forty)),
        header("xyz"),
        header("12 34"),
        format!("{} ", header("abc")),
        format!(" {}", header("abc")),
        "From abc Tue Sep 18 00:00:00 2001".to_string(),
        "From: abc Mon Sep 17 00:00:00 2001".to_string(),
        "From  Mon Sep 17 00:00:00 2001".to_string(),
        "".to_string(),
    ] {
        assert_eq!(parse_header_line(&chars(&bad)), None, "{:?}", bad);
    }
}

#[test]
fn author_line_names_a_name_and_an_address() {
    let author = |line: &str| {
        parse_author_line(&chars(line)).map(|a| {
            (
                a.name.into_iter().collect::<String>(),
                a.email.into_iter().collect::<String>(),
            )
        })
    };
    assert_eq!(
        author("From: Jane Doe <jane@example.com>"),
        Some(("Jane Doe".to_string(), "jane@example.com".to_string()))
    );
    assert_eq!(
        author("From: J < <<j@x>"),
        Some(("J".to_string(), " <<j@x".to_string()))
    );
    assert_eq!(
        author("From: Zoë <zoë@example.com>"),
        Some(("Zoë".to_string(), "zoë@example.com".to_string()))
    );
    for bad in [
        "From: <jane@example.com>",
        "From:  <jane@example.com>x",
        "From: Jane <>",
        "From: Jane <jane@example.com> ",
        "From: Jane <jane>@example.com>",
        "From: Jane jane@example.com",
        "From: Jane <jane@example.com",
        "from: Jane <jane@example.com>",
        "From:Jane <jane@example.com>",
    ] {
        assert_eq!(author(bad), None, "{:?}", bad);
    }
}

#[test]
fn date_line_ends_in_a_zone_offset() {
    let date = |line: &str| text(parse_date_line(&chars(line)));
    assert_eq!(
        date("Date: Mon, 17 Sep 2001 12:34:56 +0200"),
        Some("Mon, 17 Sep 2001 12:34:56 +0200".to_string())
    );
    assert_eq!(date("Date: x-1"), Some("x-1".to_string()));
    for bad in [
        "Date: Mon, 17 Sep 2001 12:34:56",
        "Date: Mon, 17 Sep 2001 12:34:56 +",
        "Date: Mon, 17 Sep 2001 12:34:56 +02:00",
        "Date: Mon, 17 Sep 2001 12:34:56 +0200 ",
        "Date: 2001-09-17 12:34:56 +0200",
        "Date: +0200",
        "Date:x+1",
        "Mon, 17 Sep 2001 12:34:56 +0200",
    ] {
        assert_eq!(date(bad), None, "{:?}", bad);
    }
}

#[test]
fn subject_line_may_carry_a_tag() {
    let subject = |line: &str| text(parse_subject_line(&chars(line)));
    assert_eq!(subject("Subject: [PATCH] Fix it"), Some("Fix it".to_string()));
    assert_eq!(subject("Subject: Fix it"), Some("Fix it".to_string()));
    assert_eq!(subject("Subject: [PATCH]"), Some("[PATCH]".to_string()));
    assert_eq!(subject("Subject: [PATCH] "), Some("".to_string()));
    assert_eq!(
        subject("Subject: [PATCH] [PATCH] twice"),
        Some("[PATCH] twice".to_string())
    );
    assert_eq!(subject("Subject: "), Some("".to_string()));
    assert_eq!(subject("Subject:"), None);
    assert_eq!(subject("subject: x"), None);
}

#[test]
fn diff_line_names_two_files() {
    assert!(parse_begin_diff_line(&chars("diff --git a/x b/x")));
    assert!(parse_begin_diff_line(&chars("diff --git a/ b/")));
    assert!(parse_begin_diff_line(&chars(
        "diff --git a/dir with space/x b/other/y"
    )));
    assert!(!parse_begin_diff_line(&chars("diff --git a/x")));
    assert!(!parse_begin_diff_line(&chars("diff --git a/xb/x")));
    assert!(!parse_begin_diff_line(&chars("diff --git \"a/x\" \"b/x\"")));
    assert!(!parse_begin_diff_line(&chars(" diff --git a/x b/x")));
    assert!(!parse_begin_diff_line(&chars("")));
}

#[test]
fn header_lines_are_matched_by_their_place() {
    let lines = vec![chars("Subject: one"), chars("other")];
    let found = match_header_line(&lines, 0, "subject", parse_subject_line).unwrap();
    assert_eq!(found, chars("one"));
    match match_header_line(&lines, 1, "subject", parse_subject_line) {
        Err(InvalidEmailMessage::InvalidHeader { expected, actual }) => {
            assert_eq!(expected, "subject");
            assert_eq!(actual, "other");
        }
        other => panic!("unexpected outcome {:?}", other),
    }
    match match_header_line(&lines, 2, "date", parse_date_line) {
        Err(InvalidEmailMessage::UnexpectedEof { expected }) => assert_eq!(expected, "date"),
        other => panic!("unexpected outcome {:?}", other),
    }
}

#[test]
fn author_info_is_mapped_part_by_part() {
    let author = AuthorInfo {
        name: "Jane",
        email: "jane@example.com",
    };
    let lengths = author.map(|part: &str| part.len());
    assert_eq!((lengths.name, lengths.email), (4, 16));
    let parse = |part: &str| part.parse::<u8>().map_err(|_| part.to_string());
    let numbers = AuthorInfo {
        name: "1",
        email: "2",
    }
    .try_map(parse)
    .unwrap();
    assert_eq!((numbers.name, numbers.email), (1, 2));
    let failed = AuthorInfo {
        name: "1",
        email: "two",
    }
    .try_map(parse);
    assert_eq!(failed.err(), Some("two".to_string()));
    let failed = AuthorInfo {
        name: "one",
        email: "two",
    }
    .try_map(parse);
    assert_eq!(failed.err(), Some("one".to_string()));
}
