use frr::preview::{display_line, find};

const END: &str = "](https://en.wikipedia.org)**";

fn mark(s: &str) -> String {
    format!("**[{}{}", s, END)
}

#[test]
fn display_line_shows_number_old_and_new() {
    let expected = format!(
        "1: \n\n{} bar {}\n\n => {} bar {}\n\n",
        mark("foo"),
        mark("foo"),
        mark("qux"),
        mark("qux")
    );
    assert_eq!(display_line("foo", "qux", "foo bar foo", 1), expected);
}

#[test]
fn display_line_numbers_in_decimal() {
    let out = display_line("a", "b", "a", 1204);
    assert!(out.starts_with("1204: \n\n"));
    let zero = display_line("a", "b", "a", 0);
    assert!(zero.starts_with("0: \n\n"));
}

#[test]
fn display_line_with_empty_replacement() {
    assert_eq!(
        display_line("x", "", "axb", 3),
        format!("3: \n\na{}b\n\n => ab\n\n", mark("x"))
    );
}

#[test]
fn file_without_match_gives_empty_report() {
    let p = find("foo", "qux", "/r/b.txt", b"baz\nbar\n");
    assert_eq!(p.report, "");
    assert!(p.undecodable.is_empty());
}

#[test]
fn file_report_has_header_and_matching_lines_only() {
    let p = find("foo", "qux", "/r/a.txt", b"zero\nfoo bar foo\nbaz\nfoo\n");
    let expected = format!(
        "\n\n\n### File: '/r/a.txt'\n\n\n2: \n\n{} bar {}\n\n => {} bar {}\n\n4: \n\n{}\n\n => {}\n\n",
        mark("foo"),
        mark("foo"),
        mark("qux"),
        mark("qux"),
        mark("foo"),
        mark("qux")
    );
    assert_eq!(p.report, expected);
}

#[test]
fn undecodable_lines_are_reported_and_skipped() {
    let content: Vec<u8> = vec![0xff, b'f', b'o', b'o', b'\n', b'f', b'o', b'o', b'\n', 0xc3];
    let p = find("foo", "x", "/r/c.txt", &content);
    assert_eq!(p.undecodable, vec![1, 3]);
    assert!(p.report.contains("2: \n\n"));
    assert!(!p.report.contains("1: \n\n"));
}
