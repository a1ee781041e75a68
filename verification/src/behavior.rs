//! NPC behaviors: what a behavior produces, and the intent matching,
//! priorities and replies of the emotion-aware behaviors.
use vstd::prelude::*;

use crate::intent::IntentType;
use crate::str_map::{lookup, StrMap};
use crate::text::{contains_seq, contains_str, str_lowercase, to_lowercase};
use crate::utils::duration_nanos;

verus! {

/// Result of executing a behavior
#[derive(Debug, Clone)]
pub enum BehaviorResult {
    /// Behavior produced a text response
    Response(String),
    /// Behavior triggered an action
    Action(String),
    /// Behavior did not produce a result
    NoResult,
}

/// `text`, lowercased, mentions one of `words`.
pub open spec fn mentions_any(text: Seq<char>, words: Seq<Seq<char>>) -> bool {
    exists|w: int| 0 <= w < words.len() && contains_seq(str_lowercase(text), #[trigger] words[w])
}

/// The raw input or one of the keywords, lowercased, mentions one of
/// `words`.
pub open spec fn intent_mentions(raw: Seq<char>, keywords: Seq<String>, words: Seq<Seq<char>>) -> bool {
    mentions_any(raw, words) || exists|k: int|
        0 <= k < keywords.len() && mentions_any(#[trigger] keywords[k]@, words)
}

/// Words that make an intent threatening.
pub open spec fn threat_words() -> Seq<Seq<char>> {
    seq!["threat"@, "attack"@, "danger"@]
}

/// Words that make an intent provoking.
pub open spec fn provocation_words() -> Seq<Seq<char>> {
    seq!["insult"@, "challenge"@, "confront"@, "provoke"@]
}

/// Whether `text`, lowercased, contains one of `words`.
fn text_mentions(text: &str, words: &Vec<&str>) -> (r: bool)
    ensures
        r == mentions_any(text@, words@.map_values(|w: &str| w@)),
{
    let lower = to_lowercase(text);
    let ghost ws = words@.map_values(|w: &str| w@);
    let mut i: usize = 0;
    while i < words.len()
        invariant
            i <= words.len(),
            ws == words@.map_values(|w: &str| w@),
            lower@ == str_lowercase(text@),
            forall|w: int| 0 <= w < i ==> !contains_seq(lower@, #[trigger] ws[w]),
        decreases words.len() - i,
    {
        if contains_str(lower.as_str(), words[i]) {
            assert(contains_seq(str_lowercase(text@), ws[i as int]));
            return true;
        }
        i = i + 1;
    }
    false
}

/// Whether the raw input or one of the keywords mentions one of `words`.
fn intent_text_mentions(raw_input: &str, keywords: &Vec<String>, words: &Vec<&str>) -> (r: bool)
    ensures
        r == intent_mentions(raw_input@, keywords@, words@.map_values(|w: &str| w@)),
{
    if text_mentions(raw_input, words) {
        return true;
    }
    let mut k: usize = 0;
    while k < keywords.len()
        invariant
            k <= keywords.len(),
            forall|j: int| 0 <= j < k ==> !mentions_any(
                #[trigger] keywords@[j]@,
                words@.map_values(|w: &str| w@),
            ),
        decreases keywords.len() - k,
    {
        if text_mentions(keywords[k].as_str(), words) {
            return true;
        }
        k = k + 1;
    }
    false
}

/// Whether a player's input is threatening: its text or one of its
/// keywords mentions a threat, an attack or danger (the intent matching of
/// the flee behavior).
pub fn mentions_threat(raw_input: &str, keywords: &Vec<String>) -> (r: bool)
    ensures
        r == intent_mentions(raw_input@, keywords@, threat_words()),
{
    let words = vec!["threat", "attack", "danger"];
    assert(words@.map_values(|w: &str| w@) =~= threat_words());
    intent_text_mentions(raw_input, keywords, &words)
}

/// Whether a player's input is provoking: its text or one of its keywords
/// mentions an insult, a challenge, a confrontation or a provocation (the
/// intent matching of the aggressive behavior).
pub fn mentions_provocation(raw_input: &str, keywords: &Vec<String>) -> (r: bool)
    ensures
        r == intent_mentions(raw_input@, keywords@, provocation_words()),
{
    let words = vec!["insult", "challenge", "confront", "provoke"];
    assert(words@.map_values(|w: &str| w@) =~= provocation_words());
    intent_text_mentions(raw_input, keywords, &words)
}

/// Whether the friendly behavior responds to an intent: greetings and chat.
pub fn friendly_matches(intent_type: IntentType) -> (r: bool)
    ensures
        r == (intent_type == IntentType::Greeting || intent_type == IntentType::Chat),
{
    match intent_type {
        IntentType::Greeting | IntentType::Chat => true,
        _ => false,
    }
}

/// Base priority of the flee behavior: a survival response.
pub fn flee_priority() -> (r: u32)
    ensures
        r == 100,
{
    100
}

/// Base priority of the aggressive behavior.
pub fn aggressive_priority() -> (r: u32)
    ensures
        r == 80,
{
    80
}

/// Base priority of the friendly behavior.
pub fn friendly_priority() -> (r: u32)
    ensures
        r == 60,
{
    60
}

/// Cautious behavior triggered by fear and anticipation
#[derive(Debug, Clone, Copy)]
pub struct CautiousBehavior;

impl CautiousBehavior {
    /// Create a new cautious behavior
    pub fn new() -> (r: CautiousBehavior)
        ensures
            r == CautiousBehavior,
    {
        CautiousBehavior
    }

    /// Cautious behavior responds to requests and questions.
    pub fn matches_intent(&self, intent_type: IntentType) -> (r: bool)
        ensures
            r == (intent_type == IntentType::Question || intent_type == IntentType::Command),
    {
        match intent_type {
            IntentType::Question | IntentType::Command => true,
            _ => false,
        }
    }

    /// The reply of the cautious behavior.
    pub fn execute(&self) -> (r: BehaviorResult)
        ensures
            r matches BehaviorResult::Response(t) && t@
                == "I'm not sure about this... Let me think carefully. *hesitates*"@,
    {
        BehaviorResult::Response(
            "I'm not sure about this... Let me think carefully. *hesitates*".to_owned(),
        )
    }

    /// Priority of the cautious behavior: a modulating behavior, low.
    pub fn priority(&self) -> (r: u32)
        ensures
            r == 40,
    {
        40
    }
}

impl Default for CautiousBehavior {
    fn default() -> (r: CautiousBehavior)
        ensures
            r == CautiousBehavior,
    {
        CautiousBehavior::new()
    }
}

/// Joyful behavior that triggers when happy
#[derive(Debug, Clone, Copy)]
pub struct JoyfulBehavior;

impl JoyfulBehavior {
    /// Create a new joyful behavior
    pub fn new() -> (r: JoyfulBehavior)
        ensures
            r == JoyfulBehavior,
    {
        JoyfulBehavior
    }

    /// Joyful behavior responds to anything that is not a threat or an
    /// attack.
    pub fn matches_intent(&self, raw_input: &str) -> (r: bool)
        ensures
            r == (!contains_seq(str_lowercase(raw_input@), "threat"@) && !contains_seq(
                str_lowercase(raw_input@),
                "attack"@,
            )),
    {
        let lower = to_lowercase(raw_input);
        !contains_str(lower.as_str(), "threat") && !contains_str(lower.as_str(), "attack")
    }

    /// The reply of the joyful behavior.
    pub fn execute(&self) -> (r: BehaviorResult)
        ensures
            r matches BehaviorResult::Response(t) && t@
                == "This is amazing! I'm so happy right now! *beams with joy*"@,
    {
        BehaviorResult::Response("This is amazing! I'm so happy right now! *beams with joy*".to_owned())
    }

    /// Priority of the joyful behavior: medium.
    pub fn priority(&self) -> (r: u32)
        ensures
            r == 50,
    {
        50
    }
}

impl Default for JoyfulBehavior {
    fn default() -> (r: JoyfulBehavior)
        ensures
            r == JoyfulBehavior,
    {
        JoyfulBehavior::new()
    }
}

/// Declares `std::time::Instant`, an opaque reading of the monotonic clock.
#[verifier::external_type_specification]
#[verifier::external_body]
pub struct ExInstant(std::time::Instant);

/// Declares `serde_json::Value`, an opaque JSON value.
#[verifier::external_type_specification]
#[verifier::external_body]
pub struct ExJsonValue(serde_json::Value);

/// `Instant::now`: a reading of the monotonic clock. Nothing is stated of it.
#[verifier::external_body]
fn instant_now() -> std::time::Instant {
    std::time::Instant::now()
}

/// `Instant::elapsed`: the time since `t`. Nothing is stated of it.
#[verifier::external_body]
fn instant_elapsed(t: &std::time::Instant) -> std::time::Duration {
    t.elapsed()
}

/// Whether a behavior whose last execution lies `elapsed_nanos` in the
/// past (`None`: never executed) is still within a cooldown of
/// `cooldown_seconds`.
pub open spec fn cooling_down(elapsed_nanos: Option<u128>, cooldown_seconds: u64) -> bool {
    match elapsed_nanos {
        Some(e) => e < cooldown_seconds * 1_000_000_000,
        None => false,
    }
}

/// Whether a behavior is on cooldown, given the time since its last
/// execution in nanoseconds (`None` if it never ran): it is exactly when
/// less than `cooldown_seconds` have passed.
pub fn cooldown_active(elapsed_nanos: Option<u128>, cooldown_seconds: u64) -> (r: bool)
    ensures
        r == cooling_down(elapsed_nanos, cooldown_seconds),
{
    match elapsed_nanos {
        Some(e) => e < cooldown_seconds as u128 * 1_000_000_000,
        None => false,
    }
}

/// Base behavior with cooldown tracking
#[derive(Debug)]
pub struct BaseBehavior {
    name: String,
    description: String,
    priority: u32,
    intent_types: Vec<String>,
    cooldown_seconds: u64,
    last_execution: Option<std::time::Instant>,
    parameters: StrMap<serde_json::Value>,
}

impl BaseBehavior {
    /// The behavior's name.
    pub closed spec fn name_view(&self) -> Seq<char> {
        self.name@
    }

    /// The behavior's description.
    pub closed spec fn description_view(&self) -> Seq<char> {
        self.description@
    }

    /// The behavior's priority.
    pub closed spec fn priority_view(&self) -> u32 {
        self.priority
    }

    /// The intent types the behavior responds to.
    pub closed spec fn intent_types_view(&self) -> Seq<Seq<char>> {
        self.intent_types@.map_values(|t: String| t@)
    }

    /// The cooldown period in seconds.
    pub closed spec fn cooldown_view(&self) -> u64 {
        self.cooldown_seconds
    }

    /// Whether the behavior has been executed.
    pub closed spec fn executed(&self) -> bool {
        self.last_execution is Some
    }

    /// The custom parameters, in the order they were first set.
    pub closed spec fn parameters_view(&self) -> Seq<(Seq<char>, serde_json::Value)> {
        self.parameters@
    }

    /// Create a new base behavior that has not been executed and has no
    /// parameters.
    pub fn new(
        name: &str,
        description: &str,
        priority: u32,
        intent_types: Vec<String>,
        cooldown_seconds: u64,
    ) -> (r: BaseBehavior)
        ensures
            r.name_view() == name@,
            r.description_view() == description@,
            r.priority_view() == priority,
            r.intent_types_view() == intent_types@.map_values(|t: String| t@),
            r.cooldown_view() == cooldown_seconds,
            !r.executed(),
            r.parameters_view() == Seq::<(Seq<char>, serde_json::Value)>::empty(),
    {
        BaseBehavior {
            name: name.to_owned(),
            description: description.to_owned(),
            priority,
            intent_types,
            cooldown_seconds,
            last_execution: None,
            parameters: StrMap::new(),
        }
    }

    /// Get the behavior name
    pub fn name(&self) -> (r: &str)
        ensures
            r@ == self.name_view(),
    {
        self.name.as_str()
    }

    /// Get the behavior description
    pub fn description(&self) -> (r: &str)
        ensures
            r@ == self.description_view(),
    {
        self.description.as_str()
    }

    /// Get the behavior priority
    pub fn priority(&self) -> (r: u32)
        ensures
            r == self.priority_view(),
    {
        self.priority
    }

    /// Check if the behavior is on cooldown: it has been executed and less
    /// than its cooldown period has passed since, by the monotonic clock.
    pub fn is_on_cooldown(&self) -> (r: bool)
        ensures
            !self.executed() ==> !r,
            exists|elapsed: Option<u128>|
                (elapsed is Some <==> self.executed()) && r == #[trigger] cooling_down(
                    elapsed,
                    self.cooldown_view(),
                ),
    {
        let elapsed = match &self.last_execution {
            Some(t) => Some(duration_nanos(instant_elapsed(t))),
            None => None,
        };
        let r = cooldown_active(elapsed, self.cooldown_seconds);
        assert(r == cooling_down(elapsed, self.cooldown_view()));
        r
    }

    /// Update the last execution time to now.
    pub fn mark_executed(&mut self)
        ensures
            final(self).executed(),
            final(self).name_view() == old(self).name_view(),
            final(self).description_view() == old(self).description_view(),
            final(self).priority_view() == old(self).priority_view(),
            final(self).intent_types_view() == old(self).intent_types_view(),
            final(self).cooldown_view() == old(self).cooldown_view(),
            final(self).parameters_view() == old(self).parameters_view(),
    {
        self.last_execution = Some(instant_now());
    }

    /// Set a parameter value, replacing the value set before under `key`.
    pub fn set_parameter(&mut self, key: &str, value: serde_json::Value)
        ensures
            forall|q: Seq<char>|
                #[trigger] lookup(final(self).parameters_view(), q) == if q == key@ {
                    Some(value)
                } else {
                    lookup(old(self).parameters_view(), q)
                },
            final(self).name_view() == old(self).name_view(),
            final(self).description_view() == old(self).description_view(),
            final(self).priority_view() == old(self).priority_view(),
            final(self).intent_types_view() == old(self).intent_types_view(),
            final(self).cooldown_view() == old(self).cooldown_view(),
            final(self).executed() == old(self).executed(),
    {
        self.parameters.insert(key.to_owned(), value);
    }

    /// Get a parameter value, or `None` if none was set under `key`.
    pub fn get_parameter(&self, key: &str) -> (r: Option<&serde_json::Value>)
        ensures
            match r {
                Some(v) => lookup(self.parameters_view(), key@) == Some(*v),
                None => lookup(self.parameters_view(), key@) is None,
            },
    {
        self.parameters.get(key)
    }
}

} // verus!
