use oxyde::strategy::{Candidate, EmotionModulatedStrategy, FixedPriorityStrategy, RandomSelectionStrategy};

fn cand(gate: bool, matches: bool, priority: u32, modifier: i32) -> Candidate {
    Candidate { emotion_gate_open: gate, matches_intent: matches, priority, emotional_modifier: modifier }
}

#[test]
fn emotion_modulated_prefers_emotionally_matching_behavior() {
    // an angry NPC: aggressive behavior (80, +30) gated open, a default
    // acknowledgement (10) always available
    let cs = vec![cand(true, true, 80, 30), cand(true, true, 10, 0)];
    assert_eq!(EmotionModulatedStrategy::new().select(&cs), Some(0));
}

#[test]
fn fixed_priority_picks_highest_base_priority() {
    // flee (100) gated shut by calm emotions, default acknowledgement (10)
    let cs = vec![cand(false, true, 100, 0), cand(true, true, 10, 0)];
    assert_eq!(FixedPriorityStrategy::new().select(&cs), Some(0));
    // the emotion-modulated strategy falls back to the neutral behavior
    assert_eq!(EmotionModulatedStrategy::new().select(&cs), Some(1));
}

#[test]
fn modifiers_can_reorder_behaviors() {
    let cs = vec![cand(true, true, 60, 0), cand(true, true, 50, 40)];
    assert_eq!(EmotionModulatedStrategy::new().select(&cs), Some(1));
    assert_eq!(FixedPriorityStrategy::new().select(&cs), Some(0));
}

#[test]
fn ties_go_to_the_earlier_behavior() {
    let cs = vec![cand(true, false, 99, 0), cand(true, true, 50, 0), cand(true, true, 50, 0)];
    assert_eq!(EmotionModulatedStrategy::new().select(&cs), Some(1));
    assert_eq!(FixedPriorityStrategy::new().select(&cs), Some(1));
}

#[test]
fn nothing_selected_without_candidates() {
    let none: Vec<Candidate> = vec![];
    assert_eq!(EmotionModulatedStrategy::new().select(&none), None);
    assert_eq!(FixedPriorityStrategy::new().select(&none), None);
    assert_eq!(RandomSelectionStrategy.select(&none), None);
    let cs = vec![cand(false, true, 1, 0), cand(true, false, 1, 0)];
    assert_eq!(EmotionModulatedStrategy::new().select(&cs), None);
}

#[test]
fn priorities_above_i32_read_as_negative() {
    let cs = vec![cand(true, true, u32::MAX, 0), cand(true, true, 0, 0)];
    // u32::MAX as i32 is -1
    assert_eq!(EmotionModulatedStrategy::new().select(&cs), Some(1));
    assert_eq!(FixedPriorityStrategy::new().select(&cs), Some(0));
}

#[test]
fn random_selection_only_draws_matching_behaviors() {
    let cs = vec![cand(true, false, 1, 0), cand(false, true, 1, 0), cand(true, true, 1, 0)];
    let s = RandomSelectionStrategy;
    assert_eq!(s.matching(&cs), vec![1, 2]);
    assert_eq!(s.select_with(&cs, 0), 1);
    assert_eq!(s.select_with(&cs, 1), 2);
    for _ in 0..20 {
        let r = s.select(&cs).unwrap();
        assert!(r == 1 || r == 2);
    }
}

#[test]
fn strategy_names() {
    assert_eq!(EmotionModulatedStrategy::new().name(), "emotion_modulated");
    assert_eq!(FixedPriorityStrategy::new().name(), "fixed_priority");
    assert_eq!(RandomSelectionStrategy.name(), "random_selection");
}
