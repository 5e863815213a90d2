use avicore::text::{contains, ends_with, join, length, replace_all, split, starts_with, substring};

#[test]
fn split_on_separator() {
    assert_eq!(split("a,b,,c", ","), vec!["a", "b", "", "c"]);
    assert_eq!(split("abc", ","), vec!["abc"]);
    assert_eq!(split("", ","), vec![""]);
}

#[test]
fn split_on_empty_pattern_gives_each_character() {
    assert_eq!(split("ab", ""), vec!["", "a", "b", ""]);
}

#[test]
fn split_on_multi_character_pattern() {
    assert_eq!(split("one::two::", "::"), vec!["one", "two", ""]);
}

#[test]
fn join_inserts_separator() {
    let parts = vec![String::from("a"), String::from("b"), String::from("c")];
    assert_eq!(join(&parts, ", "), "a, b, c");
    assert_eq!(join(&Vec::new(), ", "), "");
}

#[test]
fn join_of_split_gives_back_the_text() {
    for (s, p) in [("a,b,,c", ","), ("x--y--", "--"), ("", ";"), ("héllo wörld", "ö")] {
        assert_eq!(join(&split(s, p), p), s);
    }
}

#[test]
fn replace_all_matches() {
    assert_eq!(replace_all("aaa", "aa", "b"), "ba");
    assert_eq!(replace_all("hello world", "o", "0"), "hell0 w0rld");
    assert_eq!(replace_all("ab", "", "-"), "-a-b-");
    assert_eq!(replace_all("abc", "x", "y"), "abc");
}

#[test]
fn replacing_a_pattern_by_itself_changes_nothing() {
    assert_eq!(replace_all("abcabc", "bc", "bc"), "abcabc");
}

#[test]
fn prefix_suffix_and_containment() {
    assert!(starts_with("hello", "he"));
    assert!(!starts_with("he", "hello"));
    assert!(ends_with("hello", "llo"));
    assert!(!ends_with("hello", "he"));
    assert!(contains("hello", "ell"));
    assert!(contains("hello", ""));
    assert!(!contains("hello", "elo"));
}

#[test]
fn length_counts_bytes() {
    assert_eq!(length("abc"), 3);
    assert_eq!(length("é"), 2);
}

#[test]
fn substring_counts_characters() {
    assert_eq!(substring("héllo", 1, 3), "éll");
    assert_eq!(substring("abc", 5, 2), "");
    assert_eq!(substring("abc", 1, 10), "bc");
}
