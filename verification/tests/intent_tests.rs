use oxyde::intent::{classify_input, count_words, extract_keywords, IntentType};

#[test]
fn test_keyword_extraction() {
    let keywords = extract_keywords("What is the capital of France?");
    assert!(keywords.contains(&"capital".to_string()));
    assert!(keywords.contains(&"france".to_string()));
    assert!(!keywords.contains(&"is".to_string()));
}

#[test]
fn keywords_drop_stop_words_and_short_words() {
    let keywords = extract_keywords("  Hello, my old FRIEND!! go at it ");
    assert_eq!(keywords, vec!["hello".to_string(), "old".to_string(), "friend".to_string()]);
}

#[test]
fn keywords_keep_cjk_words() {
    let keywords = extract_keywords("東京 は 大きい");
    assert_eq!(keywords, vec!["東京".to_string(), "大きい".to_string()]);
}

#[test]
fn simple_classification_matches_rules() {
    assert_eq!(classify_input("Hello there!"), IntentType::Greeting);
    assert_eq!(classify_input("What is your name?"), IntentType::Question);
    assert_eq!(classify_input("follow me"), IntentType::Command);
    assert_eq!(classify_input("I like this village."), IntentType::Chat);
    assert_eq!(classify_input("Go away now please"), IntentType::Command);
}

#[test]
fn word_counting() {
    assert_eq!(count_words(""), 0);
    assert_eq!(count_words("  a  b\tc\n"), 3);
    assert_eq!(count_words("one"), 1);
}

#[test]
fn intent_type_names_round_trip() {
    for t in [
        IntentType::Question,
        IntentType::Greeting,
        IntentType::Command,
        IntentType::Chat,
        IntentType::Proximity,
        IntentType::Custom,
    ] {
        assert_eq!(IntentType::from_str(t.as_str()), t);
    }
    assert_eq!(IntentType::from_str("GREETING"), IntentType::Greeting);
    assert_eq!(IntentType::from_str("dance"), IntentType::Custom);
}
