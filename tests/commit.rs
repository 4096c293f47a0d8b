use frr::commit::find_and_replace;
use frr::error::ErrorKind;
use frr::lines::{read_line, split_lines};

#[test]
fn commit_replaces_every_occurrence() {
    let out = find_and_replace("foo", "qux", "/r/a.txt", b"foo bar foo").unwrap();
    assert_eq!(out, b"qux bar qux\n".to_vec());
}

#[test]
fn commit_copies_other_lines_and_ends_each_with_newline() {
    let out = find_and_replace("b", "B", "/r/a.txt", b"abc\r\nxyz\n\nb").unwrap();
    assert_eq!(out, b"aBc\nxyz\n\nB\n".to_vec());
}

#[test]
fn commit_without_match_is_pattern_not_found() {
    let err = find_and_replace("foo", "qux", "/r/b.txt", b"baz\n").unwrap_err();
    assert_eq!(err.kind, ErrorKind::PatternNotFound);
    assert_eq!(err.subject, "/r/b.txt");
    assert_eq!(err.message(), "Pattern not found in file '/r/b.txt'");
}

#[test]
fn commit_keeps_undecodable_lines_byte_for_byte() {
    let content: Vec<u8> = vec![0xff, b'a', b'\n', b'a', b'\n'];
    let out = find_and_replace("a", "é", "/r/c.txt", &content).unwrap();
    let mut expected: Vec<u8> = vec![0xff, b'a', b'\n'];
    expected.extend_from_slice("é\n".as_bytes());
    assert_eq!(out, expected);
}

#[test]
fn commit_then_reverse_commit_restores_lines() {
    let original = b"foo bar foo\nnothing here\nfoofoo\n";
    let once = find_and_replace("foo", "qux", "/r/a.txt", original).unwrap();
    let twice = find_and_replace("qux", "foo", "/r/a.txt", &once).unwrap();
    let before: Vec<String> = split_lines(original).iter().map(|l| read_line(l)).collect();
    let after: Vec<String> = split_lines(&twice).iter().map(|l| read_line(l)).collect();
    assert_eq!(before, after);
    assert_eq!(twice, original.to_vec());
}

#[test]
fn reverse_commit_adds_final_newline_only() {
    let once = find_and_replace("a", "b", "/r/a.txt", b"xa").unwrap();
    let twice = find_and_replace("b", "a", "/r/a.txt", &once).unwrap();
    assert_eq!(twice, b"xa\n".to_vec());
}

#[test]
fn reverse_commit_also_hits_text_that_was_there_before() {
    let once = find_and_replace("foo", "bar", "/r/a.txt", b"foo bar").unwrap();
    assert_eq!(once, b"bar bar\n".to_vec());
    let twice = find_and_replace("bar", "foo", "/r/a.txt", &once).unwrap();
    assert_eq!(twice, b"foo foo\n".to_vec());
}
