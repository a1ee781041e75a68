use oxyde::behavior::{
    aggressive_priority, cooldown_active, flee_priority, friendly_matches, friendly_priority,
    mentions_provocation, mentions_threat, BaseBehavior, BehaviorResult, CautiousBehavior,
    JoyfulBehavior,
};
use oxyde::intent::IntentType;

#[test]
fn emotional_behavior_priorities() {
    assert_eq!(flee_priority(), 100);
    assert_eq!(aggressive_priority(), 80);
    assert_eq!(friendly_priority(), 60);
    assert_eq!(CautiousBehavior::new().priority(), 40);
    assert_eq!(JoyfulBehavior::new().priority(), 50);
}

#[test]
fn threat_detection_looks_at_input_and_keywords() {
    assert!(mentions_threat("I will ATTACK you", &vec![]));
    assert!(mentions_threat("hello", &vec!["Danger".to_string()]));
    assert!(!mentions_threat("hello friend", &vec!["friend".to_string()]));
}

#[test]
fn provocation_detection() {
    assert!(mentions_provocation("I challenge you", &vec![]));
    assert!(mentions_provocation("hey", &vec!["Insulting".to_string()]));
    assert!(!mentions_provocation("nice day", &vec![]));
}

#[test]
fn intent_matching_of_behaviors() {
    assert!(friendly_matches(IntentType::Greeting));
    assert!(friendly_matches(IntentType::Chat));
    assert!(!friendly_matches(IntentType::Question));
    let cautious = CautiousBehavior::default();
    assert!(cautious.matches_intent(IntentType::Question));
    assert!(cautious.matches_intent(IntentType::Command));
    assert!(!cautious.matches_intent(IntentType::Greeting));
    let joyful = JoyfulBehavior::default();
    assert!(joyful.matches_intent("What a lovely day"));
    assert!(!joyful.matches_intent("This is a Threat"));
}

#[test]
fn replies() {
    match CautiousBehavior::new().execute() {
        BehaviorResult::Response(t) => assert!(t.contains("hesitates")),
        _ => panic!("Expected Response result"),
    }
    match JoyfulBehavior::new().execute() {
        BehaviorResult::Response(t) => assert!(t.contains("beams with joy")),
        _ => panic!("Expected Response result"),
    }
}

#[test]
fn base_behavior_starts_off_cooldown_and_cools_down_after_running() {
    let mut b = BaseBehavior::new("wave", "waves at the player", 7, vec!["Greeting".to_string()], 60);
    assert_eq!(b.name(), "wave");
    assert_eq!(b.description(), "waves at the player");
    assert_eq!(b.priority(), 7);
    assert!(!b.is_on_cooldown());
    b.mark_executed();
    assert!(b.is_on_cooldown());
    let mut quick = BaseBehavior::new("nod", "nods", 1, vec![], 0);
    quick.mark_executed();
    assert!(!quick.is_on_cooldown());
}

#[test]
fn cooldown_compares_elapsed_time_with_period() {
    assert!(!cooldown_active(None, 60));
    assert!(cooldown_active(Some(59_999_999_999), 60));
    assert!(!cooldown_active(Some(60_000_000_000), 60));
    assert!(!cooldown_active(Some(0), 0));
}

#[test]
fn base_behavior_parameters_replace_by_key() {
    let mut b = BaseBehavior::new("wave", "", 1, vec![], 0);
    assert!(b.get_parameter("speed").is_none());
    b.set_parameter("speed", serde_json::Value::from(3));
    b.set_parameter("speed", serde_json::Value::from(5));
    assert_eq!(b.get_parameter("speed"), Some(&serde_json::Value::from(5)));
}
