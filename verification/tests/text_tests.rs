use oxyde::study::check_expected_match;
use oxyde::text::{chars_of, contains_str, replace_str, split_chars, split_words, str_eq};

#[test]
fn replace_all_occurrences_left_to_right() {
    assert_eq!(replace_str("aaa", "aa", "b"), "ba");
    assert_eq!(replace_str("Hi {name}, {name}!", "{name}", "Ann"), "Hi Ann, Ann!");
    assert_eq!(replace_str("nothing here", "{x}", "y"), "nothing here");
}

#[test]
fn contains_and_equality() {
    assert!(contains_str("hello world", "o w"));
    assert!(contains_str("abc", ""));
    assert!(!contains_str("abc", "abcd"));
    assert!(str_eq("éa", "éa"));
    assert!(!str_eq("a", "ab"));
}

#[test]
fn split_like_std() {
    let s = chars_of("a_or_b_or_");
    let sep = chars_of("_or_");
    let parts: Vec<String> = split_chars(&s, &sep).iter().map(|p| p.iter().collect()).collect();
    let expected: Vec<String> = "a_or_b_or_".split("_or_").map(|p| p.to_string()).collect();
    assert_eq!(parts, expected);
}

#[test]
fn words_like_split_whitespace() {
    let s = chars_of("  one two\tthree  ");
    let words: Vec<String> = split_words(&s).iter().map(|p| p.iter().collect()).collect();
    assert_eq!(words, vec!["one", "two", "three"]);
}

#[test]
fn expected_category_matching() {
    assert!(check_expected_match("FleeBehavior", "flee"));
    assert!(check_expected_match("CautiousBehavior", "flee_or_cautious"));
    assert!(!check_expected_match("JoyfulBehavior", "flee_or_cautious"));
    assert!(!check_expected_match("JoyfulBehavior", "aggressive"));
}

#[test]
fn whitespace_matches_std_on_every_char() {
    for code in 0u32..=0x10FFFF {
        if let Some(c) = char::from_u32(code) {
            assert_eq!(oxyde::text::is_whitespace(c), c.is_whitespace(), "U+{:04X}", code);
        }
    }
}
