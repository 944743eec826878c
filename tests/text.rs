use maach_et::text::{contains_chars, str_equals, trim_text};

#[test]
fn trim_removes_unicode_white_space() {
    assert_eq!(trim_text("\t\u{a0} a b \u{2028}\n"), "a b");
    assert_eq!(trim_text("   "), "");
}

#[test]
fn text_comparison_and_search() {
    assert!(str_equals("abc", "abc"));
    assert!(!str_equals("abc", "abd"));
    let hay: Vec<char> = "some complete text".chars().collect();
    let needle: Vec<char> = "complete".chars().collect();
    assert!(contains_chars(&hay, &needle));
    assert!(!contains_chars(&needle, &hay));
}
