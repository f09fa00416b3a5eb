use alamo_movies::text::{eq_ignore_case, str_le};

#[test]
fn case_insensitive_equality_folds_ascii_letters() {
    assert!(eq_ignore_case("Q&A", "q&a"));
    assert!(eq_ignore_case("Big Show", "bIG sHOW"));
    assert!(!eq_ignore_case("Q&A", "Q&A "));
    assert!(!eq_ignore_case("Q&A", "QA"));
}

#[test]
fn case_insensitive_equality_folds_beyond_ascii() {
    // "F\u{CA}TE" is FETE with a circumflex E in upper case; "f\u{EA}te"
    // is its lower-case form.
    assert!(eq_ignore_case("F\u{CA}TE", "f\u{EA}te"));
    assert!(!eq_ignore_case("F\u{CA}TE", "fete"));
}

#[test]
fn lexicographic_order_by_code_point() {
    assert!(str_le("", "anything"));
    assert!(str_le("Alpha", "Zebra"));
    assert!(str_le("Zebra", "alpha"));
    assert!(!str_le("alpha", "Alpha"));
    assert!(str_le("abc", "abc"));
    assert!(str_le("ab", "abc"));
    assert!(!str_le("abc", "ab"));
}
