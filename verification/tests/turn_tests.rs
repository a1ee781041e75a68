use oxyde::agent::{turn_start, turn_step, AgentState, TurnCommand, TurnEvent};
use oxyde::behavior::BehaviorResult;

fn answer(c: &TurnCommand) -> Option<String> {
    match c {
        TurnCommand::Answer(t) => Some(t.clone()),
        TurnCommand::RememberAndAnswer(t) => Some(t.clone()),
        _ => None,
    }
}

#[test]
fn first_nonempty_response_answers_the_turn() {
    let s = turn_start();
    assert_eq!(s, AgentState::Processing);
    let (s, c) = turn_step(s, TurnEvent::InputAnalysed);
    assert_eq!(s, AgentState::Executing);
    assert!(matches!(c, TurnCommand::RunNextBehavior));
    let (s, c) = turn_step(s, TurnEvent::BehaviorDone(BehaviorResult::Action("wave".to_string())));
    assert_eq!(s, AgentState::Executing);
    assert!(matches!(c, TurnCommand::ReportAction(ref a) if a == "wave"));
    let (s, c) = turn_step(s, TurnEvent::BehaviorDone(BehaviorResult::NoResult));
    assert_eq!(s, AgentState::Executing);
    assert!(matches!(c, TurnCommand::RunNextBehavior));
    let (s, c) = turn_step(s, TurnEvent::BehaviorDone(BehaviorResult::Response("Hello!".to_string())));
    assert_eq!(s, AgentState::Idle);
    assert!(matches!(c, TurnCommand::Answer(_)));
    assert_eq!(answer(&c), Some("Hello!".to_string()));
}

#[test]
fn empty_response_falls_back_to_generation() {
    let (s, _) = turn_step(AgentState::Processing, TurnEvent::InputAnalysed);
    let (s, c) = turn_step(s, TurnEvent::BehaviorDone(BehaviorResult::Response(String::new())));
    assert_eq!(s, AgentState::Generating);
    assert!(matches!(c, TurnCommand::GenerateReply));
    let (s, c) = turn_step(s, TurnEvent::ReplyGenerated("Generated".to_string()));
    assert_eq!(s, AgentState::Idle);
    assert!(matches!(c, TurnCommand::RememberAndAnswer(ref t) if t == "Generated"));
}

#[test]
fn no_behavior_response_generates_a_reply() {
    let (s, _) = turn_step(AgentState::Processing, TurnEvent::InputAnalysed);
    let (s, c) = turn_step(s, TurnEvent::BehaviorsExhausted);
    assert_eq!(s, AgentState::Generating);
    assert!(matches!(c, TurnCommand::GenerateReply));
    let (s, c) = turn_step(s, TurnEvent::ReplyGenerated("I see.".to_string()));
    assert_eq!(s, AgentState::Idle);
    assert_eq!(answer(&c), Some("I see.".to_string()));
}
