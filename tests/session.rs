use frr::error::FrrError;
use frr::session::{Action, Field, Session};

fn ready() -> Session {
    let mut s = Session::new();
    s.set_find("  foo ");
    s.set_replace("\tqux\n");
    s.set_path(" /data/foo_run ");
    s
}

#[test]
fn inputs_are_trimmed() {
    let s = ready();
    assert_eq!(s.find(), "foo");
    assert_eq!(s.replace(), "qux");
    assert_eq!(s.path(), "/data/foo_run");
    assert_eq!(s.text(), "");
    assert!(s.editable());
}

#[test]
fn search_needs_find_text_and_directory() {
    let mut s = Session::new();
    s.set_path("/data");
    assert!(matches!(s.start_search(), Action::Nothing));
    assert_eq!(s.text(), "Please enter the text to find and a directory.");
    s.set_find("foo");
    s.set_path("");
    assert!(matches!(s.start_search(), Action::Nothing));
    assert_eq!(s.text(), "Please enter the text to find and a directory.");
}

#[test]
fn search_needs_an_absolute_directory() {
    let mut s = ready();
    s.set_path("data/run");
    assert!(matches!(s.start_search(), Action::Nothing));
    assert_eq!(s.text(), "Please enter an absolute path.");
}

#[test]
fn search_allows_empty_replacement() {
    let mut s = ready();
    s.set_replace("");
    match s.start_search() {
        Action::Search { find, replace, root } => {
            assert_eq!(find, "foo");
            assert_eq!(replace, "");
            assert_eq!(root, "/data/foo_run");
        }
        _ => panic!("expected a search"),
    }
}

#[test]
fn preview_then_commit_uses_the_working_set() {
    let mut s = ready();
    assert!(matches!(s.start_search(), Action::Search { .. }));
    assert_eq!(s.text(), "# Searching...");
    s.search_finished(Ok(("report".to_string(), vec!["/data/foo_run/a.txt".to_string()])));
    assert!(s.confirming());
    assert!(!s.editable());
    assert_eq!(s.text(), "report");
    s.set_find("other");
    assert_eq!(s.find(), "foo");
    match s.enter() {
        Action::Commit { find, replace, files } => {
            assert_eq!(find, "foo");
            assert_eq!(replace, "qux");
            assert_eq!(files, vec!["/data/foo_run/a.txt"]);
        }
        _ => panic!("expected a commit"),
    }
    assert_eq!(s.text(), "# Replacing...");
    s.commit_finished("\n- '/data/foo_run/a.txt'\n");
    assert_eq!(
        s.text(),
        "Replaced 'foo' with 'qux' in the following files: \n- '/data/foo_run/a.txt'\n"
    );
    assert!(s.editable());
    assert!(matches!(s.start_commit(), Action::Nothing));
}

#[test]
fn failed_search_shows_the_error() {
    let mut s = ready();
    s.start_search();
    s.search_finished(Err(FrrError::no_matches()));
    assert_eq!(s.text(), "Nothing found");
    assert!(!s.confirming());
}

#[test]
fn cancel_drops_the_preview_and_late_results() {
    let mut s = ready();
    s.start_search();
    s.search_finished(Ok(("report".to_string(), vec!["/a.txt".to_string()])));
    s.cancel();
    assert_eq!(s.text(), "Operation cancelled.");
    assert!(matches!(s.start_commit(), Action::Nothing));
    s.start_search();
    s.cancel();
    s.search_finished(Ok(("late".to_string(), vec!["/a.txt".to_string()])));
    assert_eq!(s.text(), "Operation cancelled.");
    assert!(!s.confirming());
}

#[test]
fn path_follows_the_last_substitution() {
    let mut s = ready();
    s.update_path(true);
    assert_eq!(
        s.text(),
        "Could not update the path automatically, please update it manually."
    );
    assert_eq!(s.path(), "/data/foo_run");
    s.start_search();
    s.search_finished(Ok(("r".to_string(), vec!["/data/foo_run/a.txt".to_string()])));
    s.start_commit();
    s.commit_finished("");
    s.set_find("bar");
    s.update_path(true);
    assert_eq!(s.path(), "/data/bar_run");
}

#[test]
fn tab_cycles_the_focus() {
    let mut s = Session::new();
    assert_eq!(s.focus(), Field::Find);
    assert_eq!(s.next_focus(), Field::Replace);
    assert_eq!(s.next_focus(), Field::Dir);
    assert_eq!(s.next_focus(), Field::Find);
}
