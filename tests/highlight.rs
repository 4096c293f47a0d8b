use frr::highlight::{highlight, highlight_pattern};

#[test]
fn highlight_marks_every_occurrence() {
    assert_eq!(
        highlight_pattern("foo", "foo bar foo"),
        "**[foo](https://en.wikipedia.org)** bar **[foo](https://en.wikipedia.org)**"
    );
}

#[test]
fn highlight_keeps_surrounding_text() {
    let m = highlight("foo", "a foo b");
    assert_eq!(m.plain(), "a foo b");
    assert_eq!(m.render(), "a **[foo](https://en.wikipedia.org)** b");
}

#[test]
fn highlight_occurrences_do_not_overlap() {
    assert_eq!(
        highlight_pattern("aa", "aaa"),
        "**[aa](https://en.wikipedia.org)**a"
    );
}

#[test]
fn highlight_without_occurrence_is_the_line() {
    assert_eq!(highlight_pattern("zz", "foo bar"), "foo bar");
    assert_eq!(highlight_pattern("foo", ""), "");
}

#[test]
fn highlight_with_empty_pattern_is_the_line() {
    assert_eq!(highlight_pattern("", "foo bar"), "foo bar");
}

#[test]
fn highlight_handles_multibyte_text() {
    assert_eq!(
        highlight_pattern("é", "café é"),
        "caf**[é](https://en.wikipedia.org)** **[é](https://en.wikipedia.org)**"
    );
}

#[test]
fn highlight_again_after_stripping_is_the_same() {
    let line = "x foo foofoo **[foo]** y";
    let first = highlight("foo", line);
    let stripped = first.plain();
    assert_eq!(stripped, line);
    let second = highlight("foo", &stripped);
    assert_eq!(second.render(), first.render());
    assert_eq!(second.plain(), first.plain());
}
