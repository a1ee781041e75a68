//! Conversation on topics: an NPC answers with one of the responses of the
//! first topic the player mentions, or with one of its default responses.
use vstd::prelude::*;

use crate::behavior::BehaviorResult;
use crate::intent::IntentType;
use crate::prompts::random_usize;
use crate::str_map::{lookup, StrMap};
use crate::text::{contains_seq, contains_str, str_lowercase, to_lowercase};

verus! {

/// The input mentions the topic: the topic, lowercased, occurs in the
/// input, lowercased.
pub open spec fn topic_mentioned(input: Seq<char>, topic: Seq<char>) -> bool {
    contains_seq(str_lowercase(input), str_lowercase(topic))
}

/// Position of the first topic, in the order the topics were added, that
/// the input mentions.
pub open spec fn first_mentioned(topics: Seq<(Seq<char>, Vec<String>)>, input: Seq<char>) -> Option<
    int,
>
    decreases topics.len(),
{
    if topics.len() == 0 {
        None
    } else {
        match first_mentioned(topics.drop_last(), input) {
            Some(i) => Some(i),
            None => if topic_mentioned(input, topics.last().0) {
                Some(topics.len() - 1)
            } else {
                None
            },
        }
    }
}

/// The responses a reply to the input is drawn from: those of the first
/// topic mentioned, else the default ones.
pub open spec fn reply_choices(
    topics: Seq<(Seq<char>, Vec<String>)>,
    defaults: Seq<String>,
    input: Seq<char>,
) -> Seq<String> {
    match first_mentioned(topics, input) {
        Some(i) => topics[i].1@,
        None => defaults,
    }
}

/// The response a draw picks: the one at the draw's remainder by the
/// number of responses.
pub open spec fn drawn(choices: Seq<String>, draw: usize) -> Seq<char> {
    choices[(draw as int) % (choices.len() as int)]@
}

proof fn lemma_first_mentioned_bound(topics: Seq<(Seq<char>, Vec<String>)>, input: Seq<char>)
    ensures
        first_mentioned(topics, input) matches Some(i) ==> 0 <= i < topics.len() && topic_mentioned(
            input,
            topics[i].0,
        ),
    decreases topics.len(),
{
    if topics.len() > 0 {
        lemma_first_mentioned_bound(topics.drop_last(), input);
    }
}

/// Behavior that handles conversations with players
#[derive(Debug)]
pub struct DialogueBehavior {
    topics: StrMap<Vec<String>>,
    default_responses: Vec<String>,
}

impl DialogueBehavior {
    /// The topics and their responses, in the order they were added.
    pub closed spec fn topic_entries(&self) -> Seq<(Seq<char>, Vec<String>)> {
        self.topics@
    }

    /// The responses used when no topic is mentioned.
    pub closed spec fn defaults(&self) -> Seq<String> {
        self.default_responses@
    }

    /// Create a new dialogue behavior from topics with their responses and
    /// the responses used when no topic matches.
    pub fn new(topics: StrMap<Vec<String>>, default_responses: Vec<String>) -> (r: DialogueBehavior)
        ensures
            r.topic_entries() == topics@,
            r.defaults() == default_responses@,
    {
        DialogueBehavior { topics, default_responses }
    }

    /// Add a topic with its responses, replacing the responses of a topic
    /// of the same name.
    pub fn add_topic(&mut self, topic: &str, responses: Vec<String>)
        ensures
            final(self).defaults() == old(self).defaults(),
            lookup(old(self).topic_entries(), topic@) is None ==> final(self).topic_entries()
                == old(self).topic_entries().push((topic@, responses)),
            lookup(old(self).topic_entries(), topic@) is Some ==> exists|i: int|
                0 <= i < old(self).topic_entries().len() && old(self).topic_entries()[i].0 == topic@
                    && final(self).topic_entries() == old(self).topic_entries().update(
                    i,
                    (topic@, responses),
                ),
    {
        self.topics.insert(topic.to_owned(), responses);
    }

    /// Dialogue engages in conversation: it answers questions, chat and
    /// greetings.
    pub fn matches_intent(&self, intent_type: IntentType) -> (r: bool)
        ensures
            r == (intent_type == IntentType::Question || intent_type == IntentType::Chat
                || intent_type == IntentType::Greeting),
    {
        match intent_type {
            IntentType::Question | IntentType::Chat | IntentType::Greeting => true,
            _ => false,
        }
    }

    /// Priority of the dialogue behavior.
    pub fn priority(&self) -> (r: u32)
        ensures
            r == 50,
    {
        50
    }

    /// Position of the first topic the input mentions.
    fn mentioned_topic(&self, raw_input: &str) -> (r: Option<usize>)
        ensures
            match r {
                Some(i) => first_mentioned(self.topic_entries(), raw_input@) == Some(i as int),
                None => first_mentioned(self.topic_entries(), raw_input@) is None,
            },
    {
        let lower = to_lowercase(raw_input);
        let entries = self.topics.entries();
        let ghost ts = self.topic_entries();
        let mut i: usize = 0;
        while i < entries.len()
            invariant
                i <= entries.len(),
                ts == self.topic_entries(),
                entries@.map_values(|e: (String, Vec<String>)| (e.0@, e.1)) == ts,
                lower@ == str_lowercase(raw_input@),
                first_mentioned(ts.take(i as int), raw_input@) is None,
            decreases entries.len() - i,
        {
            proof {
                assert(ts.take(i + 1).drop_last() =~= ts.take(i as int));
                assert(ts.take(i + 1).last() == ts[i as int]);
                assert(ts[i as int].0 == entries@[i as int].0@);
            }
            let topic_lower = to_lowercase(entries[i].0.as_str());
            if contains_str(lower.as_str(), topic_lower.as_str()) {
                proof {
                    assert(first_mentioned(ts.take(i + 1), raw_input@) == Some(i as int));
                    lemma_first_mentioned_prefix(ts, raw_input@, i + 1);
                }
                return Some(i);
            }
            i = i + 1;
        }
        assert(ts.take(entries@.len() as int) =~= ts);
        None
    }

    /// Whether there is a response to draw for the input: the first topic
    /// it mentions has responses, or, when it mentions none, there are
    /// default responses.
    pub fn can_reply(&self, raw_input: &str) -> (r: bool)
        ensures
            r == (reply_choices(self.topic_entries(), self.defaults(), raw_input@).len() > 0),
    {
        proof {
            lemma_first_mentioned_bound(self.topic_entries(), raw_input@);
        }
        match self.mentioned_topic(raw_input) {
            Some(i) => {
                let entries = self.topics.entries();
                assert(entries@[i as int].1 == self.topic_entries()[i as int].1);
                entries[i].1.len() > 0
            },
            None => self.default_responses.len() > 0,
        }
    }

    /// The reply to the input when the random draw is `draw`.
    pub fn reply_for_draw(&self, raw_input: &str, draw: usize) -> (r: String)
        requires
            reply_choices(self.topic_entries(), self.defaults(), raw_input@).len() > 0,
        ensures
            r@ == drawn(reply_choices(self.topic_entries(), self.defaults(), raw_input@), draw),
    {
        proof {
            lemma_first_mentioned_bound(self.topic_entries(), raw_input@);
        }
        match self.mentioned_topic(raw_input) {
            Some(i) => {
                let entries = self.topics.entries();
                assert(entries@[i as int].1 == self.topic_entries()[i as int].1);
                let responses = &entries[i].1;
                responses[draw % responses.len()].clone()
            },
            None => self.default_responses[draw % self.default_responses.len()].clone(),
        }
    }

    /// Answer the player: one of the responses of the first topic the input
    /// mentions, or one of the default responses, drawn at random.
    pub fn execute(&self, raw_input: &str) -> (r: BehaviorResult)
        requires
            reply_choices(self.topic_entries(), self.defaults(), raw_input@).len() > 0,
        ensures
            r matches BehaviorResult::Response(t) && exists|draw: usize|
                t@ == #[trigger] drawn(
                    reply_choices(self.topic_entries(), self.defaults(), raw_input@),
                    draw,
                ),
    {
        let draw = random_usize();
        BehaviorResult::Response(self.reply_for_draw(raw_input, draw))
    }

    /// Answer the player where there is a response to draw (see
    /// [`DialogueBehavior::can_reply`]); `None` where there is none.
    pub fn try_execute(&self, raw_input: &str) -> (r: Option<BehaviorResult>)
        ensures
            r is None <==> reply_choices(self.topic_entries(), self.defaults(), raw_input@).len()
                == 0,
            r matches Some(res) ==> res matches BehaviorResult::Response(t) && exists|draw: usize|
                t@ == #[trigger] drawn(
                    reply_choices(self.topic_entries(), self.defaults(), raw_input@),
                    draw,
                ),
    {
        if self.can_reply(raw_input) {
            Some(self.execute(raw_input))
        } else {
            None
        }
    }
}

proof fn lemma_first_mentioned_prefix(
    ts: Seq<(Seq<char>, Vec<String>)>,
    input: Seq<char>,
    k: int,
)
    requires
        0 <= k <= ts.len(),
        first_mentioned(ts.take(k), input) is Some,
    ensures
        first_mentioned(ts, input) == first_mentioned(ts.take(k), input),
    decreases ts.len() - k,
{
    if k < ts.len() {
        assert(ts.take(k + 1).drop_last() =~= ts.take(k));
        lemma_first_mentioned_prefix(ts, input, k + 1);
    } else {
        assert(ts.take(k) =~= ts);
    }
}

fn strings(v: Vec<&str>) -> (r: Vec<String>)
    ensures
        r@.map_values(|s: String| s@) == v@.map_values(|s: &str| s@),
{
    let mut r: Vec<String> = Vec::new();
    let mut i: usize = 0;
    while i < v.len()
        invariant
            i <= v.len(),
            r@.map_values(|s: String| s@) == v@.take(i as int).map_values(|s: &str| s@),
        decreases v.len() - i,
    {
        let ghost before = r@;
        let item = v[i].to_owned();
        r.push(item);
        assert(v@.take(i + 1) =~= v@.take(i as int).push(v@[i as int]));
        assert(r@ == before.push(item));
        assert(r@.map_values(|s: String| s@) =~= before.map_values(|s: String| s@).push(item@));
        assert(r@.map_values(|s: String| s@) =~= v@.take(i + 1).map_values(|s: &str| s@));
        i = i + 1;
    }
    assert(v@.take(v@.len() as int) =~= v@);
    r
}

/// Create a dialogue behavior with the standard topics: quests, the shop
/// and the weather, two responses each, and four default responses.
pub fn create_dialogue() -> (r: DialogueBehavior)
    ensures
        r.topic_entries().map_values(
            |e: (Seq<char>, Vec<String>)| (e.0, e.1@.map_values(|s: String| s@)),
        ) == seq![
            (
                "quest"@,
                seq![
                    "I might have a task for you if you're interested."@,
                    "Are you looking for work? I could use some help."@,
                ],
            ),
            (
                "shop"@,
                seq![
                    "I have various goods for sale. Take a look!"@,
                    "Everything is fairly priced, I assure you."@,
                ],
            ),
            (
                "weather"@,
                seq![
                    "Fine day today, isn't it?"@,
                    "I hope the weather holds up. It's been unpredictable lately."@,
                ],
            ),
        ],
        r.defaults().map_values(|s: String| s@) == seq![
            "Hmm, interesting."@,
            "I'm not sure I follow."@,
            "Let's talk about something else."@,
            "I don't know much about that."@,
        ],
{
    proof {
        reveal_strlit("quest");
        reveal_strlit("shop");
        reveal_strlit("weather");
    }
    let mut topics: StrMap<Vec<String>> = StrMap::new();
    assert("quest"@ != "shop"@ && "quest"@ != "weather"@ && "shop"@ != "weather"@) by {
        assert("quest"@.len() == 5 && "shop"@.len() == 4 && "weather"@.len() == 7);
    }
    let quest_src: Vec<&str> = vec![
        "I might have a task for you if you're interested.",
        "Are you looking for work? I could use some help.",
    ];
    let quest = strings(quest_src);
    assert(quest@.map_values(|s: String| s@) =~= seq![
        "I might have a task for you if you're interested."@,
        "Are you looking for work? I could use some help."@,
    ]);
    let ghost t0 = topics@;
    assert(t0 =~= Seq::<(Seq<char>, Vec<String>)>::empty());
    topics.insert("quest".to_owned(), quest);
    let ghost t1 = topics@;
    assert(t1 == t0.push(("quest"@, quest)));
    assert(t1.drop_last() =~= t0);
    let shop_src: Vec<&str> = vec![
        "I have various goods for sale. Take a look!",
        "Everything is fairly priced, I assure you.",
    ];
    let shop = strings(shop_src);
    assert(shop@.map_values(|s: String| s@) =~= seq![
        "I have various goods for sale. Take a look!"@,
        "Everything is fairly priced, I assure you."@,
    ]);
    assert(lookup(t1, "shop"@) is None);
    topics.insert("shop".to_owned(), shop);
    let ghost t2 = topics@;
    assert(t2 == t1.push(("shop"@, shop)));
    assert(t2.drop_last() =~= t1);
    let weather_src: Vec<&str> = vec![
        "Fine day today, isn't it?",
        "I hope the weather holds up. It's been unpredictable lately.",
    ];
    let weather = strings(weather_src);
    assert(weather@.map_values(|s: String| s@) =~= seq![
        "Fine day today, isn't it?"@,
        "I hope the weather holds up. It's been unpredictable lately."@,
    ]);
    assert(lookup(t2, "weather"@) is None);
    topics.insert("weather".to_owned(), weather);
    assert(topics@ == t2.push(("weather"@, weather)));
    let default_responses_src: Vec<&str> = vec![
        "Hmm, interesting.",
        "I'm not sure I follow.",
        "Let's talk about something else.",
        "I don't know much about that.",
    ];
    let default_responses = strings(default_responses_src);
    assert(default_responses@.map_values(|s: String| s@) =~= seq![
        "Hmm, interesting."@,
        "I'm not sure I follow."@,
        "Let's talk about something else."@,
        "I don't know much about that."@,
    ]);
    let r = DialogueBehavior::new(topics, default_responses);
    assert(r.topic_entries().map_values(
        |e: (Seq<char>, Vec<String>)| (e.0, e.1@.map_values(|s: String| s@)),
    ) =~= seq![
        (
            "quest"@,
            seq![
                "I might have a task for you if you're interested."@,
                "Are you looking for work? I could use some help."@,
            ],
        ),
        (
            "shop"@,
            seq![
                "I have various goods for sale. Take a look!"@,
                "Everything is fairly priced, I assure you."@,
            ],
        ),
        (
            "weather"@,
            seq![
                "Fine day today, isn't it?"@,
                "I hope the weather holds up. It's been unpredictable lately."@,
            ],
        ),
    ]);
    r
}

} // verus!
