use frr::text::{chars_of, contains_at_all, occurs_at, replace_chars, string_of};

fn replace(s: &str, p: &str, r: &str) -> String {
    string_of(&replace_chars(&chars_of(s), &chars_of(p), &chars_of(r)))
}

#[test]
fn chars_round_trip_through_string() {
    let s = "héllo wörld";
    assert_eq!(chars_of(s).len(), 11);
    assert_eq!(string_of(&chars_of(s)), s);
    assert_eq!(string_of(&[]), "");
}

#[test]
fn replace_all_occurrences_left_to_right() {
    assert_eq!(replace("foo bar foo", "foo", "qux"), "qux bar qux");
    assert_eq!(replace("aaa", "aa", "b"), "ba");
    assert_eq!(replace("abc", "x", "y"), "abc");
    assert_eq!(replace("abc", "", "y"), "abc");
    assert_eq!(replace("abcabc", "abc", ""), "");
}

#[test]
fn contains_and_occurs() {
    let s = chars_of("hello");
    assert!(contains_at_all(&s, &chars_of("ll")));
    assert!(!contains_at_all(&s, &chars_of("lo!")));
    assert!(contains_at_all(&s, &chars_of("")));
    assert!(occurs_at(&s, &chars_of("lo"), 3));
    assert!(!occurs_at(&s, &chars_of("lo"), 2));
    assert!(!occurs_at(&s, &chars_of("lo"), 9));
}
