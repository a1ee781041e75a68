use oxyde::intent::{analyze_input, intent_from_reply, intent_prompt, is_blank, IntentError, IntentType};

#[test]
fn test_intent_from_chat() {
    let greeting = analyze_input("Hello there!", None).unwrap();
    assert_eq!(greeting.intent_type, IntentType::Greeting);

    let question = analyze_input("What is your name?", None).unwrap();
    assert_eq!(question.intent_type, IntentType::Question);

    let command = analyze_input("follow me", None).unwrap();
    assert_eq!(command.intent_type, IntentType::Command);

    let chat = analyze_input("I like this village.", None).unwrap();
    assert_eq!(chat.intent_type, IntentType::Chat);
}

#[test]
fn blank_input_is_refused() {
    assert!(is_blank(""));
    assert!(is_blank(" \t\n"));
    assert!(!is_blank(" a "));
    assert_eq!(analyze_input("   ", None).unwrap_err(), IntentError::EmptyInput);
    assert_eq!(analyze_input("", Some("greeting")).unwrap_err(), IntentError::EmptyInput);
    assert_eq!(IntentError::EmptyInput.message(), "Empty input");
}

#[test]
fn model_reply_decides_the_type() {
    let a = analyze_input("What is the capital of France?", Some("  Command\n")).unwrap();
    assert_eq!(a.intent_type, IntentType::Command);
    assert!(a.from_model);
    assert_eq!(a.keywords, vec!["what".to_string(), "capital".to_string(), "france".to_string()]);
    let b = analyze_input("What is the capital of France?", None).unwrap();
    assert_eq!(b.intent_type, IntentType::Question);
    assert!(!b.from_model);
    assert_eq!(intent_from_reply("GREETING"), IntentType::Greeting);
    assert_eq!(intent_from_reply("I think chat"), IntentType::Custom);
}

#[test]
fn classification_prompt_text() {
    let en = intent_prompt("Hi", "en");
    assert!(en.starts_with("Classify the intent of this message: \"Hi\"\n\nRespond with ONLY ONE"));
    assert!(en.ends_with("general conversation\n\nIntent:"));
    let es = intent_prompt("Hola", "es");
    assert!(es.starts_with(
        "Classify the intent of this message (Note: Input may be in language code: es): \"Hola\"\n\n"
    ));
}
