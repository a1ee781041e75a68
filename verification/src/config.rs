//! Configuration pieces for agents: personality, embedding model choice and
//! the defaults used when a configuration leaves a value out.
use vstd::prelude::*;

use crate::text::str_eq;

verus! {

/// Configuration for an agent's personality and behavior
#[derive(Debug, Clone)]
pub struct AgentPersonality {
    /// Agent name
    pub name: String,
    /// Agent role (e.g., "Shopkeeper", "Guard", "Villager")
    pub role: String,
    /// Agent backstory and personality traits
    pub backstory: Vec<String>,
    /// Agent knowledge base (facts it knows about the world)
    pub knowledge: Vec<String>,
}

/// Vector embedding model type
#[derive(Debug, Clone, Copy, PartialEq, Eq, Structural)]
pub enum EmbeddingModelType {
    /// Use mini-bert model
    MiniBert,
    /// Use distilled BERT
    DistilBert,
    /// Use a custom model
    Custom,
}

impl Default for EmbeddingModelType {
    fn default() -> (r: EmbeddingModelType)
        ensures
            r == EmbeddingModelType::MiniBert,
    {
        EmbeddingModelType::MiniBert
    }
}

/// Default maximum number of memories to store.
pub fn default_memory_capacity() -> (r: usize)
    ensures
        r == 100,
{
    100
}

/// Default number of memories kept in short-term memory.
pub fn default_short_term_capacity() -> (r: usize)
    ensures
        r == 10,
{
    10
}

/// Default dimension of embeddings (that of mini BERT models).
pub fn default_embedding_dim() -> (r: usize)
    ensures
        r == 384,
{
    384
}

/// Default model used for inference.
pub fn default_model() -> (r: String)
    ensures
        r@ == "llama2-7b"@,
{
    "llama2-7b".to_owned()
}

/// Default maximum number of tokens to generate.
pub fn default_max_tokens() -> (r: usize)
    ensures
        r == 256,
{
    256
}

/// Default timeout for inference requests, in milliseconds.
pub fn default_timeout() -> (r: u64)
    ensures
        r == 5000,
{
    5000
}

/// Format of a configuration file
#[derive(Debug, Clone, Copy, PartialEq, Eq, Structural)]
pub enum ConfigFormat {
    /// JSON (`.json`)
    Json,
    /// YAML (`.yaml` or `.yml`)
    Yaml,
    /// TOML (`.toml`)
    Toml,
}

/// The format a file extension names, if any.
pub open spec fn format_of(extension: Seq<char>) -> Option<ConfigFormat> {
    if extension == "json"@ {
        Some(ConfigFormat::Json)
    } else if extension == "yaml"@ || extension == "yml"@ {
        Some(ConfigFormat::Yaml)
    } else if extension == "toml"@ {
        Some(ConfigFormat::Toml)
    } else {
        None
    }
}

/// The format of a configuration file, told by its extension: `None` for
/// a file without extension or with an unknown one.
pub fn config_format(extension: Option<&str>) -> (r: Option<ConfigFormat>)
    ensures
        r == match extension {
            Some(e) => format_of(e@),
            None => None,
        },
{
    match extension {
        Some(e) => {
            if str_eq(e, "json") {
                Some(ConfigFormat::Json)
            } else if str_eq(e, "yaml") || str_eq(e, "yml") {
                Some(ConfigFormat::Yaml)
            } else if str_eq(e, "toml") {
                Some(ConfigFormat::Toml)
            } else {
                None
            }
        },
        None => None,
    }
}

/// Whether a new agent configuration is written as JSON (rather than
/// YAML): for a file without extension or with the `json` extension.
pub fn writes_json(extension: Option<&str>) -> (r: bool)
    ensures
        r == match extension {
            Some(e) => e@ == "json"@,
            None => true,
        },
{
    match extension {
        Some(e) => str_eq(e, "json"),
        None => true,
    }
}

/// The personality a new agent starts with, for a name and a role.
pub fn new_agent_personality(name: &str, role: &str) -> (r: AgentPersonality)
    ensures
        r.name@ == name@,
        r.role@ == role@,
        r.backstory@.map_values(|s: String| s@) == seq![
            "A "@ + role@ + " with a rich history"@,
            "Has lived in this area for many years"@,
            "Knowledgeable about local customs and events"@,
        ],
        r.knowledge@.map_values(|s: String| s@) == seq![
            "Expert knowledge about "@ + role@,
            "Familiar with the local area"@,
            "Knows common greetings and customs"@,
        ],
{
    let mut history = "A ".to_owned();
    history.append(role);
    history.append(" with a rich history");
    let mut expertise = "Expert knowledge about ".to_owned();
    expertise.append(role);
    let backstory = vec![
        history,
        "Has lived in this area for many years".to_owned(),
        "Knowledgeable about local customs and events".to_owned(),
    ];
    let knowledge = vec![
        expertise,
        "Familiar with the local area".to_owned(),
        "Knows common greetings and customs".to_owned(),
    ];
    assert(backstory@.map_values(|s: String| s@) =~= seq![
        "A "@ + role@ + " with a rich history"@,
        "Has lived in this area for many years"@,
        "Knowledgeable about local customs and events"@,
    ]);
    assert(knowledge@.map_values(|s: String| s@) =~= seq![
        "Expert knowledge about "@ + role@,
        "Familiar with the local area"@,
        "Knows common greetings and customs"@,
    ]);
    AgentPersonality { name: name.to_owned(), role: role.to_owned(), backstory, knowledge }
}

/// A behavior of a new agent's configuration: its name, the intent that
/// triggers it, its cooldown in seconds and its priority.
#[derive(Debug, Clone)]
pub struct BehaviorSetting {
    /// Name of the behavior
    pub name: String,
    /// Behavior trigger condition
    pub trigger: String,
    /// Behavior cooldown in seconds
    pub cooldown: u64,
    /// Behavior priority (higher = more important)
    pub priority: u32,
}

fn setting(name: &str, trigger: &str, cooldown: u64, priority: u32) -> (r: BehaviorSetting)
    ensures
        r.name@ == name@,
        r.trigger@ == trigger@,
        r.cooldown == cooldown,
        r.priority == priority,
{
    BehaviorSetting { name: name.to_owned(), trigger: trigger.to_owned(), cooldown, priority }
}

/// The behaviors of a new agent: greeting on proximity (a minute's
/// cooldown, priority 10), dialogue on chat (priority 20) and movement
/// (priority 5).
pub fn default_behaviors() -> (r: Vec<BehaviorSetting>)
    ensures
        r@.map_values(|b: BehaviorSetting| (b.name@, b.trigger@, b.cooldown, b.priority)) == seq![
            ("greeting"@, "proximity"@, 60u64, 10u32),
            ("dialogue"@, "chat"@, 0u64, 20u32),
            ("movement"@, "movement"@, 0u64, 5u32),
        ],
{
    let r = vec![
        setting("greeting", "proximity", 60, 10),
        setting("dialogue", "chat", 0, 20),
        setting("movement", "movement", 0, 5),
    ];
    assert(r@.map_values(|b: BehaviorSetting| (b.name@, b.trigger@, b.cooldown, b.priority)) =~= seq![
        ("greeting"@, "proximity"@, 60u64, 10u32),
        ("dialogue"@, "chat"@, 0u64, 20u32),
        ("movement"@, "movement"@, 0u64, 5u32),
    ]);
    r
}

} // verus!
