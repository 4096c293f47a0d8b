use frr::lines::{read_line, split_lines};

#[test]
fn lines_end_at_line_feeds() {
    let l = split_lines(b"a\r\nb\n\nc");
    assert_eq!(l, vec![b"a".to_vec(), b"b".to_vec(), b"".to_vec(), b"c".to_vec()]);
}

#[test]
fn final_line_feed_is_optional() {
    assert_eq!(split_lines(b"a\n"), vec![b"a".to_vec()]);
    assert_eq!(split_lines(b"a"), vec![b"a".to_vec()]);
    assert_eq!(split_lines(b"\n"), vec![b"".to_vec()]);
    assert!(split_lines(b"").is_empty());
}

#[test]
fn lone_carriage_return_stays() {
    assert_eq!(split_lines(b"a\rb\r"), vec![b"a\rb\r".to_vec()]);
}

#[test]
fn invalid_utf8_reads_as_empty() {
    assert_eq!(read_line("grüße".as_bytes()), "grüße");
    assert_eq!(read_line(&[0x66, 0xff, 0x6f]), "");
}
