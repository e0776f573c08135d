use valorant_overlay::text::{
    chars_eq, chars_of, contains, eq_ignore_ascii_case, split, str_eq, to_ascii_lower,
};

#[test]
fn characters_of_a_text() {
    assert_eq!(chars_of("aÖ1"), vec!['a', 'Ö', '1']);
    assert!(chars_of("").is_empty());
    assert!(chars_eq(&vec!['a', 'b'], &vec!['a', 'b']));
    assert!(!chars_eq(&vec!['a', 'b'], &vec!['a', 'c']));
    assert!(!chars_eq(&vec!['a'], &vec!['a', 'a']));
    assert!(str_eq("locked", "locked"));
    assert!(!str_eq("locked", "Locked"));
    assert!(str_eq("", ""));
}

#[test]
fn ascii_case_is_ignored() {
    assert_eq!(to_ascii_lower('A'), 'a');
    assert_eq!(to_ascii_lower('Z'), 'z');
    assert_eq!(to_ascii_lower('a'), 'a');
    assert_eq!(to_ascii_lower('['), '[');
    assert_eq!(to_ascii_lower('@'), '@');
    assert_eq!(to_ascii_lower('Ö'), 'Ö');
    assert!(eq_ignore_ascii_case("AbC-1", "aBc-1"));
    assert!(!eq_ignore_ascii_case("abc", "abd"));
    assert!(!eq_ignore_ascii_case("abc", "abcd"));
    assert!(!eq_ignore_ascii_case("Ö", "ö"));
    assert!(eq_ignore_ascii_case("", ""));
}

#[test]
fn splitting_keeps_empty_pieces() {
    assert_eq!(split("a:b:c", ':'), vec!["a", "b", "c"]);
    assert_eq!(split("", ':'), vec![""]);
    assert_eq!(split(":", ':'), vec!["", ""]);
    assert_eq!(split("a::b:", ':'), vec!["a", "", "b", ""]);
    assert_eq!(split("no separator", ':'), vec!["no separator"]);
    assert_eq!(split("ö=ü", '='), vec!["ö", "ü"]);
}

#[test]
fn substring_search() {
    assert!(contains("-ares-deployment=eu", "-ares-deployment="));
    assert!(contains("abc", ""));
    assert!(contains("", ""));
    assert!(contains("abc", "abc"));
    assert!(contains("xxabc", "abc"));
    assert!(!contains("abc", "abcd"));
    assert!(!contains("abc", "ac"));
    assert!(!contains("", "a"));
}
