use frr::batch::{CommitBatch, PreviewBatch};
use frr::crawl::{CrawlAction, Crawler, Entry};

fn collect() -> Vec<String> {
    let mut c = Crawler::new("/root");
    loop {
        match c.next_action() {
            CrawlAction::ReadDir(p) => {
                let entries = if p == "/root" {
                    vec![
                        Entry { path: "/root/a.txt".to_string(), is_dir: false },
                        Entry { path: "/root/sub".to_string(), is_dir: true },
                    ]
                } else {
                    vec![Entry { path: "/root/sub/b.txt".to_string(), is_dir: false }]
                };
                c.on_listing(entries);
            }
            CrawlAction::Canonicalize(p) => c.on_canonical(p),
            CrawlAction::Done(v) => return v,
        }
    }
}

fn content(path: &str) -> &'static [u8] {
    if path.ends_with("a.txt") {
        b"foo bar foo"
    } else {
        b"baz"
    }
}

#[test]
fn collect_preview_and_commit_two_files() {
    let files = collect();
    assert_eq!(files, vec!["/root/a.txt", "/root/sub/b.txt"]);

    let mut preview = PreviewBatch::new("foo", "qux", files);
    while let Some(p) = preview.next_file() {
        preview.add_file(content(&p));
    }
    let (report, working_set) = preview.finish().unwrap();
    assert_eq!(working_set, vec!["/root/a.txt"]);
    assert_eq!(report.matches("**[foo](https://en.wikipedia.org)**").count(), 2);
    assert!(report.contains(
        "**[qux](https://en.wikipedia.org)** bar **[qux](https://en.wikipedia.org)**"
    ));
    assert!(!report.contains("b.txt"));

    let mut commit = CommitBatch::new("foo", "qux", working_set);
    let mut written: Vec<(String, Vec<u8>)> = Vec::new();
    while let Some(p) = commit.next_file() {
        match commit.on_read(content(&p)) {
            Some(bytes) => {
                written.push((p, bytes));
                commit.on_written(true, "");
            }
            None => {}
        }
    }
    assert_eq!(written, vec![("/root/a.txt".to_string(), b"qux bar qux\n".to_vec())]);
    assert_eq!(commit.summary(), "\n- '/root/a.txt'\n");
}
