use oxyde::agent::{AgentEvent, AgentState};
use oxyde::memory::MemoryCategory;

#[test]
fn agent_event_names_round_trip() {
    for e in [
        AgentEvent::Start,
        AgentEvent::Stop,
        AgentEvent::Action,
        AgentEvent::Response,
        AgentEvent::StateChange,
        AgentEvent::Error,
    ] {
        assert_eq!(AgentEvent::from_str(e.as_str()), Some(e));
    }
}

#[test]
fn agent_event_parsing_ignores_case_and_accepts_alias() {
    assert_eq!(AgentEvent::from_str("START"), Some(AgentEvent::Start));
    assert_eq!(AgentEvent::from_str("StateChange"), Some(AgentEvent::StateChange));
    assert_eq!(AgentEvent::StateChange.as_str(), "state_change");
    assert_eq!(AgentEvent::from_str("launch"), None);
}

#[test]
fn memory_category_names_round_trip() {
    for c in [
        MemoryCategory::Episodic,
        MemoryCategory::Semantic,
        MemoryCategory::Procedural,
        MemoryCategory::Emotional,
    ] {
        assert_eq!(MemoryCategory::from_str(c.as_str()), Some(c));
    }
    assert_eq!(MemoryCategory::from_str("Semantic"), Some(MemoryCategory::Semantic));
    assert_eq!(MemoryCategory::from_str("dream"), None);
}

#[test]
fn agent_states_compare() {
    assert_eq!(AgentState::Idle, AgentState::Idle);
    assert_ne!(AgentState::Idle, AgentState::Stopped);
}
