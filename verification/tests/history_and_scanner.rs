use gitpatcher::utils::{
    blank_line, bytes_start_with, RememberLast, SimpleParser, UnexpectedEof, REMEMBER_LIMIT,
};

fn line(s: &str) -> Vec<char> {
    s.chars().collect()
}

fn remembered(r: &RememberLast) -> Vec<String> {
    r.as_slice()
        .iter()
        .map(|l| l.iter().collect::<String>())
        .collect()
}

#[test]
fn remember_last_keeps_the_newest_lines() {
    let mut r = RememberLast::new();
    assert_eq!(r.len(), 0);
    assert!(r.as_slice().is_empty());
    for (i, word) in ["a", "b", "c"].iter().enumerate() {
        r.remember(&line(word));
        assert_eq!(r.len(), i + 1);
    }
    assert_eq!(remembered(&r), vec!["a", "b", "c"]);
    assert_eq!(r.back(0), &line("c"));
    assert_eq!(r.back(2), &line("a"));
    for word in ["d", "e", "f", "g"] {
        r.remember(&line(word));
    }
    assert_eq!(REMEMBER_LIMIT, 5);
    assert_eq!(r.len(), 5);
    assert_eq!(remembered(&r), vec!["c", "d", "e", "f", "g"]);
    assert_eq!(r.back(0), &line("g"));
    assert_eq!(r.back(4), &line("c"));
}

#[test]
fn remember_last_copies_what_it_remembers() {
    let mut r = RememberLast::new();
    let mut l = line("first");
    r.remember(&l);
    l.push('!');
    r.remember(&l);
    assert_eq!(remembered(&r), vec!["first", "first!"]);
}

#[test]
fn scanner_walks_the_lines() {
    let mut p = SimpleParser::new(b"one\r\ntwo\n\nfour\r");
    assert_eq!(p.peek(), Ok(&b"one".to_vec()));
    assert_eq!(p.pop(), Ok(b"one".to_vec()));
    assert_eq!(p.pop(), Ok(b"two".to_vec()));
    assert_eq!(p.peek(), Ok(&Vec::new()));
    assert_eq!(p.pop(), Ok(Vec::new()));
    // Without a newline behind it, a carriage return stays.
    assert_eq!(p.pop(), Ok(b"four\r".to_vec()));
    assert_eq!(p.peek(), Err(UnexpectedEof));
    assert_eq!(p.pop(), Err(UnexpectedEof));
    let mut empty = SimpleParser::new(b"");
    assert_eq!(empty.pop(), Err(UnexpectedEof));
    let mut single = SimpleParser::new(b"\n");
    assert_eq!(single.pop(), Ok(Vec::new()));
    assert_eq!(single.pop(), Err(UnexpectedEof));
}

#[test]
fn scanner_takes_while_and_until() {
    let mut p = SimpleParser::new(b"a1\na2\nb1\n \n\t\nc1\nc2");
    let starts_a = |l: &Vec<u8>| bytes_start_with(l, b"a");
    assert_eq!(p.take_while(starts_a), vec![b"a1".to_vec(), b"a2".to_vec()]);
    assert_eq!(p.peek(), Ok(&b"b1".to_vec()));
    assert_eq!(p.take_while(starts_a), Vec::<Vec<u8>>::new());
    p.skip_while(|l: &Vec<u8>| bytes_start_with(l, b"b"));
    assert_eq!(p.peek(), Ok(&b" ".to_vec()));
    p.skip_whitespace();
    assert_eq!(p.peek(), Ok(&b"c1".to_vec()));
    let (skipped, found) = p
        .take_until(|l: &Vec<u8>| bytes_start_with(l, b"c2"))
        .unwrap();
    assert_eq!(skipped, vec![b"c1".to_vec()]);
    assert_eq!(found, b"c2".to_vec());
    assert_eq!(p.pop(), Err(UnexpectedEof));
    let mut p = SimpleParser::new(b"x\ny\n");
    assert_eq!(
        p.take_until(|l: &Vec<u8>| bytes_start_with(l, b"z")),
        Err(UnexpectedEof)
    );
    // Every line was taken on the way.
    assert_eq!(p.pop(), Err(UnexpectedEof));
}

#[test]
fn blank_lines_hold_white_space_only() {
    assert!(blank_line(&b"".to_vec()));
    assert!(blank_line(&b" \t\r".to_vec()));
    assert!(blank_line(&"\u{a0}\u{2003}".as_bytes().to_vec()));
    assert!(!blank_line(&b" x ".to_vec()));
    // Bytes that are no UTF-8 decode to a character that is no white space.
    assert!(!blank_line(&vec![b' ', 0xff]));
    assert!(bytes_start_with(b"---", b"---"));
    assert!(bytes_start_with(b"--- a", b"---"));
    assert!(!bytes_start_with(b"--", b"---"));
    assert!(bytes_start_with(b"", b""));
}
