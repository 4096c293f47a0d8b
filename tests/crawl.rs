use frr::crawl::{is_eligible, CrawlAction, Crawler, Entry};

fn file(p: &str) -> Entry {
    Entry { path: p.to_string(), is_dir: false }
}

fn dir(p: &str) -> Entry {
    Entry { path: p.to_string(), is_dir: true }
}

fn read_dir(c: &mut Crawler) -> String {
    match c.next_action() {
        CrawlAction::ReadDir(p) => p,
        _ => panic!("expected a directory to read"),
    }
}

fn canonicalize(c: &mut Crawler) -> String {
    match c.next_action() {
        CrawlAction::Canonicalize(p) => p,
        _ => panic!("expected a file to canonicalize"),
    }
}

fn done(c: &mut Crawler) -> Vec<String> {
    match c.next_action() {
        CrawlAction::Done(v) => v,
        _ => panic!("expected the end of the crawl"),
    }
}

#[test]
fn eligibility_is_a_case_sensitive_suffix() {
    assert!(is_eligible("/r/a.txt"));
    assert!(is_eligible(".txt"));
    assert!(!is_eligible("/r/a.TXT"));
    assert!(!is_eligible("/r/a.txt.bak"));
    assert!(!is_eligible("txt"));
    assert!(!is_eligible(""));
}

#[test]
fn crawl_walks_depth_first_in_listing_order() {
    let mut c = Crawler::new("/r");
    assert_eq!(read_dir(&mut c), "/r");
    c.on_listing(vec![file("/r/a.txt"), dir("/r/sub"), file("/r/z.md"), file("/r/c.txt")]);
    assert_eq!(canonicalize(&mut c), "/r/a.txt");
    c.on_canonical("/real/a.txt".to_string());
    assert_eq!(read_dir(&mut c), "/r/sub");
    c.on_listing(vec![file("/r/sub/b.txt"), dir("/r/sub/empty")]);
    assert_eq!(canonicalize(&mut c), "/r/sub/b.txt");
    c.on_canonical("/real/sub/b.txt".to_string());
    assert_eq!(read_dir(&mut c), "/r/sub/empty");
    c.on_listing(Vec::new());
    assert_eq!(canonicalize(&mut c), "/r/c.txt");
    c.on_canonical("/real/c.txt".to_string());
    assert_eq!(done(&mut c), vec!["/real/a.txt", "/real/sub/b.txt", "/real/c.txt"]);
}

fn crawl_fixed_tree() -> Vec<String> {
    let mut c = Crawler::new("/r");
    loop {
        match c.next_action() {
            CrawlAction::ReadDir(p) => {
                let entries = if p == "/r" {
                    vec![file("/r/a.txt"), dir("/r/sub"), file("/r/notes.md")]
                } else {
                    vec![file("/r/sub/b.txt")]
                };
                c.on_listing(entries);
            }
            CrawlAction::Canonicalize(p) => c.on_canonical(p),
            CrawlAction::Done(v) => return v,
        }
    }
}

#[test]
fn crawl_twice_gives_the_same_paths() {
    let first = crawl_fixed_tree();
    let second = crawl_fixed_tree();
    assert_eq!(first, vec!["/r/a.txt", "/r/sub/b.txt"]);
    assert_eq!(first, second);
}
