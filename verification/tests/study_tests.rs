use oxyde::behavior::BehaviorResult;
use oxyde::study::{
    count_selections, count_stuck_runs, detect_priority_override, is_neutral_behavior,
    response_text, RankedBehavior,
};

fn ranked(label: &str, priority: u32, modifier: i32) -> RankedBehavior {
    RankedBehavior { label: label.to_string(), priority, modifier }
}

#[test]
fn recorded_response_texts() {
    assert_eq!(response_text(&BehaviorResult::Response("Hi".to_string())), "Hi");
    assert_eq!(response_text(&BehaviorResult::Action("flee".to_string())), "[Action: flee]");
    assert_eq!(response_text(&BehaviorResult::NoResult), "No response");
}

#[test]
fn neutral_behaviors_by_name() {
    assert!(is_neutral_behavior("NeutralGreetingBehavior"));
    assert!(is_neutral_behavior("PoliteDeclineBehavior"));
    assert!(is_neutral_behavior("DefaultAcknowledgeBehavior"));
    assert!(!is_neutral_behavior("FleeBehavior"));
    assert!(!is_neutral_behavior("neutral"));
}

#[test]
fn stuck_runs_count_long_maximal_runs() {
    let mut flags = vec![true; 10];
    flags.push(false);
    flags.extend(vec![true; 9]);
    flags.push(false);
    flags.extend(vec![true; 12]);
    assert_eq!(count_stuck_runs(&flags, 10), 2);
    assert_eq!(count_stuck_runs(&flags, 9), 3);
    assert_eq!(count_stuck_runs(&[], 10), 0);
    assert_eq!(count_stuck_runs(&[false, false], 1), 0);
}

#[test]
fn override_when_modifier_changes_the_winner() {
    let matching = vec![
        ranked("FleeBehavior { .. }", 100, -50),
        ranked("AggressiveBehavior { .. }", 80, 30),
    ];
    assert!(detect_priority_override(&matching, "AggressiveBehavior"));
    assert!(!detect_priority_override(&matching, "FleeBehavior"));
    let same = vec![ranked("FleeBehavior", 100, 0), ranked("CautiousBehavior", 40, 10)];
    assert!(!detect_priority_override(&same, "FleeBehavior"));
    assert!(!detect_priority_override(&Vec::new(), "FleeBehavior"));
    let tie = vec![ranked("A", 50, 0), ranked("B", 50, 0)];
    assert!(!detect_priority_override(&tie, "B"));
}

#[test]
fn selections_are_counted_per_behavior() {
    let names: Vec<String> =
        ["Flee", "Joyful", "Flee", "Flee"].iter().map(|s| s.to_string()).collect();
    let counts = count_selections(&names);
    assert_eq!(counts.get("Flee"), Some(&3));
    assert_eq!(counts.get("Joyful"), Some(&1));
    assert_eq!(counts.get("Cautious"), None);
    assert_eq!(counts.len(), 2);
}
