use oxyde::prompts::{
    default_version, EmotionalPromptTemplate, GoalPromptTemplate, MemoryPromptTemplate,
    PromptConfig, SystemPromptTemplate,
};
use oxyde::str_map::StrMap;

fn template(base: &str, guidelines: &[&str], constraints: &str, context: &str) -> SystemPromptTemplate {
    SystemPromptTemplate {
        base_description: base.to_string(),
        behavior_guidelines: guidelines.iter().map(|g| g.to_string()).collect(),
        response_constraints: constraints.to_string(),
        context_template: context.to_string(),
    }
}

fn config() -> PromptConfig {
    let mut system_prompts = StrMap::new();
    system_prompts.insert(
        "merchant".to_string(),
        template(
            "You are {npc_name}, a {npc_role}.",
            &["Haggle politely", "Praise your goods"],
            "Answer briefly.",
            "Recent talk:\n{conversation_history}",
        ),
    );
    let mut states = StrMap::new();
    states.insert("happy".to_string(), "You feel cheerful.".to_string());
    let mut styles = StrMap::new();
    styles.insert("friendly".to_string(), "Be warm.".to_string());
    let mut greetings = StrMap::new();
    greetings.insert("guard".to_string(), vec!["Halt!".to_string(), "Move along.".to_string()]);
    greetings.insert("ghost".to_string(), vec![]);
    PromptConfig {
        version: default_version(),
        system_prompts,
        default_system_prompt: template("You are {npc_name}.", &[], "", "{conversation_history}"),
        emotional_prompts: EmotionalPromptTemplate {
            emotional_states: states,
            response_styles: styles,
            modifier_template: "{emotional_state} {response_style}".to_string(),
        },
        goal_prompts: GoalPromptTemplate {
            goal_context_template: String::new(),
            priority_descriptions: StrMap::new(),
            goal_type_descriptions: StrMap::new(),
            motivation_template: String::new(),
        },
        memory_prompts: MemoryPromptTemplate {
            context_header: String::new(),
            memory_format: String::new(),
            category_labels: StrMap::new(),
            importance_indicators: StrMap::new(),
        },
        greetings,
        farewells: StrMap::new(),
    }
}

#[test]
fn test_system_prompt_generation() {
    let config = config();
    let prompt = config.generate_system_prompt("Marcus", "merchant", &[]);
    assert!(prompt.contains("Marcus"));
    assert!(prompt.contains("merchant"));
}

#[test]
fn system_prompt_sections() {
    let config = config();
    let history = vec!["Player: hi".to_string(), "Marcus: hello".to_string()];
    let prompt = config.generate_system_prompt("Marcus", "merchant", &history);
    assert_eq!(
        prompt,
        "You are Marcus, a merchant.\n\n- Haggle politely\n- Praise your goods\n\n\nAnswer briefly.\n\nRecent talk:\nPlayer: hi\nMarcus: hello"
    );
}

#[test]
fn unknown_role_uses_default_template() {
    let config = config();
    assert_eq!(config.generate_system_prompt("Velma", "villager", &[]), "You are Velma.");
}

#[test]
fn test_emotional_modifier() {
    let config = config();
    let modifier = config.generate_emotional_modifier("happy", "friendly");
    assert!(!modifier.is_empty());
    assert_eq!(modifier, "You feel cheerful. Be warm.");
    assert_eq!(
        config.generate_emotional_modifier("sad", "rude"),
        "You are in a neutral emotional state. Respond normally and professionally."
    );
}

#[test]
fn greetings_and_farewells() {
    let config = config();
    assert_eq!(config.greeting_for_draw("guard", 3), "Move along.");
    assert_eq!(config.greeting_for_draw("ghost", 3), "Hello there!");
    assert_eq!(config.greeting_for_draw("nobody", 0), "Hello there!");
    assert_eq!(config.farewell_for_draw("guard", 0), "Goodbye!");
    let g = config.get_greeting("guard");
    assert!(g == "Halt!" || g == "Move along.");
    assert_eq!(config.get_farewell("guard"), "Goodbye!");
    assert_eq!(config.version, "1.0");
}

#[test]
fn str_map_read_after_write() {
    let mut m: StrMap<u32> = StrMap::new();
    m.insert("a".to_string(), 1);
    m.insert("b".to_string(), 2);
    m.insert("a".to_string(), 3);
    assert_eq!(m.get("a"), Some(&3));
    assert_eq!(m.get("b"), Some(&2));
    assert_eq!(m.get("c"), None);
    assert!(m.contains_key("b"));
    assert_eq!(m.len(), 2);
    assert_eq!(m.entries()[0].0, "a");
}

fn goal_and_memory_config() -> PromptConfig {
    let mut c = config();
    let mut priorities = StrMap::new();
    priorities.insert("high".to_string(), "urgent".to_string());
    let mut types = StrMap::new();
    types.insert("quest".to_string(), "a quest".to_string());
    c.goal_prompts = GoalPromptTemplate {
        goal_context_template:
            "Goal: {goal_description} ({goal_type}, {priority}) at {progress}, motivation {motivation}"
                .to_string(),
        priority_descriptions: priorities,
        goal_type_descriptions: types,
        motivation_template: String::new(),
    };
    let mut labels = StrMap::new();
    labels.insert("episodic".to_string(), "Event".to_string());
    let mut indicators = StrMap::new();
    indicators.insert("high".to_string(), "(!)".to_string());
    c.memory_prompts = MemoryPromptTemplate {
        context_header: "Memories:".to_string(),
        memory_format: "[{category}] {content} {importance}".to_string(),
        category_labels: labels,
        importance_indicators: indicators,
    };
    c
}

#[test]
fn goal_prompt_fills_every_placeholder() {
    let c = goal_and_memory_config();
    assert_eq!(c.priority_description("high", "priority level 0.9"), "urgent");
    assert_eq!(c.priority_description("low", "priority level 0.2"), "priority level 0.2");
    let p = c.generate_goal_prompt("find the sword", "quest", "urgent", "40%", "7.5/10");
    assert_eq!(p, "Goal: find the sword (a quest, urgent) at 40%, motivation 7.5/10");
    let q = c.generate_goal_prompt("rest", "leisure", "minor", "0%", "1.0/10");
    assert_eq!(q, "Goal: rest (personal goal, minor) at 0%, motivation 1.0/10");
}

#[test]
fn memory_context_lists_memories_under_the_header() {
    let c = goal_and_memory_config();
    assert_eq!(c.format_memory_context(&Vec::new()), "");
    assert_eq!(c.importance_indicator("high", "importance 0.9"), "(!)");
    assert_eq!(c.importance_indicator("medium", "importance 0.6"), "importance 0.6");
    let memories = vec![
        ("Met the player".to_string(), "episodic".to_string(), "(!)".to_string()),
        ("Swords are sharp".to_string(), "semantic".to_string(), "importance 0.3".to_string()),
    ];
    assert_eq!(
        c.format_memory_context(&memories),
        "Memories:\n[Event] Met the player (!)\n[semantic] Swords are sharp importance 0.3\n"
    );
}
