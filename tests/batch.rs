use frr::batch::{CommitBatch, PreviewBatch};
use frr::error::ErrorKind;

fn paths(v: &[&str]) -> Vec<String> {
    v.iter().map(|s| s.to_string()).collect()
}

#[test]
fn preview_batch_keeps_list_order_and_working_set() {
    let mut b = PreviewBatch::new("foo", "qux", paths(&["/r/1.txt", "/r/2.txt", "/r/3.txt"]));
    let contents: [&[u8]; 3] = [b"foo\n", b"bar\n", b"x foo\n"];
    let mut k = 0;
    while let Some(p) = b.next_file() {
        assert_eq!(p, format!("/r/{}.txt", k + 1));
        let bad = b.add_file(contents[k]);
        assert!(bad.is_empty());
        k += 1;
    }
    assert_eq!(k, 3);
    let (report, ws) = b.finish().unwrap();
    assert_eq!(ws, paths(&["/r/1.txt", "/r/3.txt"]));
    let first = report.find("/r/1.txt").unwrap();
    let third = report.find("/r/3.txt").unwrap();
    assert!(first < third);
    assert!(!report.contains("/r/2.txt"));
}

#[test]
fn preview_batch_without_match_finds_nothing() {
    let mut b = PreviewBatch::new("foo", "qux", paths(&["/r/1.txt"]));
    b.next_file().unwrap();
    b.add_file(b"bar\n");
    let err = b.finish().unwrap_err();
    assert_eq!(err.kind, ErrorKind::NoMatchesInBatch);
    assert_eq!(err.message(), "Nothing found");
}

#[test]
fn empty_preview_batch_finds_nothing() {
    let b = PreviewBatch::new("foo", "qux", Vec::new());
    assert!(b.next_file().is_none());
    assert_eq!(b.finish().unwrap_err().kind, ErrorKind::NoMatchesInBatch);
}

#[test]
fn commit_batch_goes_on_after_failures() {
    let mut b = CommitBatch::new(
        "foo",
        "qux",
        paths(&["/r/1.txt", "/r/gone.txt", "/r/3.txt", "/r/4.txt", "/r/5.txt"]),
    );
    // 1: rewritten
    assert_eq!(b.next_file().unwrap(), "/r/1.txt");
    let new = b.on_read(b"foo\n").unwrap();
    assert_eq!(new, b"qux\n".to_vec());
    assert!(b.next_file().is_none());
    b.on_written(true, "");
    // 2: deleted since the preview
    assert_eq!(b.next_file().unwrap(), "/r/gone.txt");
    b.on_read_failed("No such file or directory");
    // 3: no longer matches
    assert_eq!(b.next_file().unwrap(), "/r/3.txt");
    assert!(b.on_read(b"bar\n").is_none());
    // 4: the write fails
    assert_eq!(b.next_file().unwrap(), "/r/4.txt");
    assert!(b.on_read(b"a foo\n").is_some());
    b.on_written(false, "read-only file system");
    // 5: rewritten
    assert_eq!(b.next_file().unwrap(), "/r/5.txt");
    assert_eq!(b.on_read(b"foo foo").unwrap(), b"qux qux\n".to_vec());
    b.on_written(true, "");
    assert!(b.next_file().is_none());

    assert_eq!(b.summary(), "\n- '/r/1.txt'\n\n- '/r/5.txt'\n");
    let f = b.failures();
    assert_eq!(f.len(), 3);
    assert_eq!(f[0].kind, ErrorKind::FileAccess);
    assert_eq!(f[0].subject, "/r/gone.txt");
    assert_eq!(f[1].kind, ErrorKind::PatternNotFound);
    assert_eq!(f[1].subject, "/r/3.txt");
    assert_eq!(f[2].kind, ErrorKind::FileAccess);
    assert_eq!(f[2].message(), "Could not access file '/r/4.txt': read-only file system");
}

#[test]
fn empty_commit_batch_has_empty_summary() {
    let b = CommitBatch::new("foo", "qux", Vec::new());
    assert!(b.next_file().is_none());
    assert_eq!(b.summary(), "");
    assert!(b.failures().is_empty());
}
