use oxyde::config::{config_format, ConfigFormat};
use oxyde::emotion::{all_emotions, Emotion};
use oxyde::inference::{fallback_provider, ProviderType};
use oxyde::strategy::behavior_name;

#[test]
fn emotion_names_and_opposites() {
    let all = all_emotions();
    assert_eq!(all.len(), 8);
    for e in &all {
        assert_eq!(Emotion::from_name(e.name()), Some(*e));
        assert_ne!(e.opposite(), *e);
        assert_eq!(e.opposite().opposite(), *e);
    }
    assert_eq!(Emotion::Joy.opposite(), Emotion::Sadness);
    assert_eq!(Emotion::Trust.opposite(), Emotion::Disgust);
    assert_eq!(Emotion::Fear.opposite(), Emotion::Anger);
    assert_eq!(Emotion::Surprise.opposite(), Emotion::Anticipation);
    assert_eq!(Emotion::from_name("Joy"), None);
    assert_eq!(Emotion::from_name("love"), None);
    assert_eq!(all[0], Emotion::Joy);
    assert_eq!(all[7], Emotion::Anticipation);
}

#[test]
fn configuration_formats_by_extension() {
    assert_eq!(config_format(Some("json")), Some(ConfigFormat::Json));
    assert_eq!(config_format(Some("yaml")), Some(ConfigFormat::Yaml));
    assert_eq!(config_format(Some("yml")), Some(ConfigFormat::Yaml));
    assert_eq!(config_format(Some("toml")), Some(ConfigFormat::Toml));
    assert_eq!(config_format(Some("JSON")), None);
    assert_eq!(config_format(Some("txt")), None);
    assert_eq!(config_format(None), None);
}

#[test]
fn fallback_alternates_between_providers() {
    assert_eq!(fallback_provider(ProviderType::Local), ProviderType::Cloud);
    assert_eq!(fallback_provider(fallback_provider(ProviderType::Cloud)), ProviderType::Cloud);
}

#[test]
fn behavior_names_stop_at_parenthesis() {
    assert_eq!(behavior_name("FleeBehavior { fear_threshold: 0.7 }"), "FleeBehavior { fear_threshold: 0.7 }");
    assert_eq!(behavior_name("CautiousBehavior(CautiousBehavior)"), "CautiousBehavior");
    assert_eq!(behavior_name("(x)"), "");
    assert_eq!(behavior_name(""), "");
}

#[test]
fn new_agent_configuration_parts() {
    let p = oxyde::config::new_agent_personality("Bob", "blacksmith");
    assert_eq!(p.name, "Bob");
    assert_eq!(p.role, "blacksmith");
    assert_eq!(p.backstory[0], "A blacksmith with a rich history");
    assert_eq!(p.knowledge[0], "Expert knowledge about blacksmith");
    assert_eq!(p.knowledge.len(), 3);
    let b = oxyde::config::default_behaviors();
    let v: Vec<(String, String, u64, u32)> =
        b.iter().map(|s| (s.name.clone(), s.trigger.clone(), s.cooldown, s.priority)).collect();
    assert_eq!(
        v,
        vec![
            ("greeting".to_string(), "proximity".to_string(), 60, 10),
            ("dialogue".to_string(), "chat".to_string(), 0, 20),
            ("movement".to_string(), "movement".to_string(), 0, 5),
        ]
    );
    assert!(oxyde::config::writes_json(None));
    assert!(oxyde::config::writes_json(Some("json")));
    assert!(!oxyde::config::writes_json(Some("yaml")));
}
