use gitsum::strings::{join_with_space, replace_all, str_eq};

#[test]
fn replace_all_single_occurrence() {
    let r = replace_all("hello {{name}}!", "{{name}}", "world");
    assert_eq!(r, "hello world!");
}

#[test]
fn replace_all_multiple_occurrences_left_to_right() {
    let r = replace_all("abcabc", "b", "xy");
    assert_eq!(r, "axycaxyc");
}

#[test]
fn replace_all_non_overlapping() {
    let r = replace_all("aaa", "aa", "b");
    assert_eq!(r, "ba");
}

#[test]
fn replace_all_no_occurrence() {
    let r = replace_all("abc", "zz", "y");
    assert_eq!(r, "abc");
}

#[test]
fn replace_all_empty_pattern_leaves_text_unchanged() {
    let r = replace_all("abc", "", "y");
    assert_eq!(r, "abc");
}

#[test]
fn replace_all_empty_replacement_deletes() {
    let r = replace_all("a-b-c", "-", "");
    assert_eq!(r, "abc");
}

#[test]
fn replace_all_matches_std_replace() {
    let text = "one {{x}} two {{x}} three";
    assert_eq!(replace_all(text, "{{x}}", "4"), text.replace("{{x}}", "4"));
}

#[test]
fn join_empty_is_empty() {
    let parts: Vec<String> = vec![];
    assert_eq!(join_with_space(&parts), "");
}

#[test]
fn join_single_empty_part_is_empty() {
    let parts = vec![String::new()];
    assert_eq!(join_with_space(&parts), "");
}

#[test]
fn join_two_parts() {
    let parts = vec![String::from("a"), String::from("b")];
    assert_eq!(join_with_space(&parts), "a b");
}

#[test]
fn join_with_leading_empty_part_keeps_leading_space() {
    let parts = vec![String::new(), String::from("S"), String::from("D")];
    assert_eq!(join_with_space(&parts), " S D");
}

#[test]
fn str_eq_basic() {
    assert!(str_eq("abc", "abc"));
    assert!(!str_eq("abc", "abd"));
    assert!(!str_eq("abc", "ab"));
    assert!(str_eq("", ""));
}
