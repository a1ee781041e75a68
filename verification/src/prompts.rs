//! Prompt templates for NPC dialogue: system prompts by role, emotional
//! modifiers, goal and memory templates, and greetings and farewells.
//!
//! Templates hold placeholders such as `{npc_name}`, which are replaced by
//! the values of an actual conversation.
use vstd::prelude::*;
use vstd::string::StringExecFns;

use crate::str_map::{lookup, StrMap};
use crate::text::{replace_all, replace_str};

verus! {

/// Template for NPC system prompts
#[derive(Debug)]
pub struct SystemPromptTemplate {
    /// Base personality description
    pub base_description: String,
    /// Behavior guidelines
    pub behavior_guidelines: Vec<String>,
    /// Response constraints (e.g., length, style)
    pub response_constraints: String,
    /// Context inclusion template
    pub context_template: String,
}

/// Template for emotional state modifiers
#[derive(Debug)]
pub struct EmotionalPromptTemplate {
    /// Emotional state descriptions
    pub emotional_states: StrMap<String>,
    /// Response style descriptions
    pub response_styles: StrMap<String>,
    /// Emotional modifier template
    pub modifier_template: String,
}

/// Template for goal-driven prompts
#[derive(Debug)]
pub struct GoalPromptTemplate {
    /// Goal context template
    pub goal_context_template: String,
    /// Goal priority descriptions
    pub priority_descriptions: StrMap<String>,
    /// Goal type descriptions
    pub goal_type_descriptions: StrMap<String>,
    /// Motivation template
    pub motivation_template: String,
}

/// Template for memory formatting
#[derive(Debug)]
pub struct MemoryPromptTemplate {
    /// Memory context header
    pub context_header: String,
    /// Single memory format
    pub memory_format: String,
    /// Memory category labels
    pub category_labels: StrMap<String>,
    /// Importance indicators
    pub importance_indicators: StrMap<String>,
}

/// Complete prompt configuration
#[derive(Debug)]
pub struct PromptConfig {
    /// Version of the prompt configuration
    pub version: String,
    /// System prompt templates by role
    pub system_prompts: StrMap<SystemPromptTemplate>,
    /// Default system prompt template
    pub default_system_prompt: SystemPromptTemplate,
    /// Emotional prompt templates
    pub emotional_prompts: EmotionalPromptTemplate,
    /// Goal-driven prompt templates
    pub goal_prompts: GoalPromptTemplate,
    /// Memory formatting templates
    pub memory_prompts: MemoryPromptTemplate,
    /// Greeting templates by role
    pub greetings: StrMap<Vec<String>>,
    /// Farewell templates by role
    pub farewells: StrMap<Vec<String>>,
}

/// The characters of each string.
pub open spec fn texts(v: Seq<String>) -> Seq<Seq<char>> {
    v.map_values(|s: String| s@)
}

/// Lines joined with a newline between each two (as `[String]::join("\n")`).
pub open spec fn join_lines(lines: Seq<Seq<char>>) -> Seq<char>
    decreases lines.len(),
{
    if lines.len() == 0 {
        Seq::empty()
    } else if lines.len() == 1 {
        lines[0]
    } else {
        join_lines(lines.drop_last()) + "\n"@ + lines.last()
    }
}

/// Each guideline on a line of its own, introduced by `- `.
pub open spec fn bullet_list(items: Seq<Seq<char>>) -> Seq<char>
    decreases items.len(),
{
    if items.len() == 0 {
        Seq::empty()
    } else {
        bullet_list(items.drop_last()) + "- "@ + items.last() + "\n"@
    }
}

/// The system prompt a template gives for an NPC and its conversation so far.
pub open spec fn system_prompt_text(
    t: SystemPromptTemplate,
    npc_name: Seq<char>,
    npc_role: Seq<char>,
    history: Seq<Seq<char>>,
) -> Seq<char> {
    let base = replace_all(
        replace_all(t.base_description@, "{npc_name}"@, npc_name),
        "{npc_role}"@,
        npc_role,
    );
    let guidelines = if t.behavior_guidelines@.len() == 0 {
        Seq::empty()
    } else {
        "\n\n"@ + bullet_list(texts(t.behavior_guidelines@))
    };
    let constraints = if t.response_constraints@.len() == 0 {
        Seq::empty()
    } else {
        "\n\n"@ + t.response_constraints@
    };
    let context = if history.len() == 0 {
        Seq::empty()
    } else {
        "\n\n"@ + replace_all(t.context_template@, "{conversation_history}"@, join_lines(history))
    };
    base + guidelines + constraints + context
}

/// The description stored under `k`, or `default` when there is none.
pub open spec fn description_or(m: Seq<(Seq<char>, String)>, k: Seq<char>, default: Seq<char>) -> Seq<
    char,
> {
    match lookup(m, k) {
        Some(d) => d@,
        None => default,
    }
}

/// The emotional modifier a template gives for an emotion and a style.
pub open spec fn emotional_modifier_text(
    t: EmotionalPromptTemplate,
    emotion: Seq<char>,
    style: Seq<char>,
) -> Seq<char> {
    replace_all(
        replace_all(
            t.modifier_template@,
            "{emotional_state}"@,
            description_or(t.emotional_states@, emotion, "You are in a neutral emotional state."@),
        ),
        "{response_style}"@,
        description_or(t.response_styles@, style, "Respond normally and professionally."@),
    )
}

/// The phrase a list gives for a draw: the one at the draw's remainder by
/// the list's length, or `fallback` when there is no list or it is empty.
pub open spec fn phrase_for(list: Option<Vec<String>>, draw: usize, fallback: Seq<char>) -> Seq<char> {
    match list {
        Some(l) => if l@.len() == 0 {
            fallback
        } else {
            l@[(draw as int) % (l@.len() as int)]@
        },
        None => fallback,
    }
}

/// The goal prompt a template gives.
pub open spec fn goal_prompt_text(
    g: GoalPromptTemplate,
    description: Seq<char>,
    goal_type: Seq<char>,
    priority: Seq<char>,
    progress: Seq<char>,
    motivation: Seq<char>,
) -> Seq<char> {
    let t1 = replace_all(g.goal_context_template@, "{goal_description}"@, description);
    let t2 = replace_all(
        t1,
        "{goal_type}"@,
        description_or(g.goal_type_descriptions@, goal_type, "personal goal"@),
    );
    let t3 = replace_all(t2, "{priority}"@, priority);
    let t4 = replace_all(t3, "{progress}"@, progress);
    replace_all(t4, "{motivation}"@, motivation)
}

/// One memory as the template shows it, on a line of its own: its
/// category is shown by its label when the template has one.
pub open spec fn memory_line(
    m: MemoryPromptTemplate,
    content: Seq<char>,
    category: Seq<char>,
    indicator: Seq<char>,
) -> Seq<char> {
    let f1 = replace_all(m.memory_format@, "{content}"@, content);
    let f2 = replace_all(f1, "{category}"@, description_or(m.category_labels@, category, category));
    replace_all(f2, "{importance}"@, indicator) + "\n"@
}

/// The lines of a run of memories (content, category, importance
/// indicator).
pub open spec fn memory_lines(
    m: MemoryPromptTemplate,
    memories: Seq<(Seq<char>, Seq<char>, Seq<char>)>,
) -> Seq<char>
    decreases memories.len(),
{
    if memories.len() == 0 {
        Seq::empty()
    } else {
        let last = memories.last();
        memory_lines(m, memories.drop_last()) + memory_line(m, last.0, last.1, last.2)
    }
}

/// The memory context: nothing without memories, else the header on a
/// line of its own followed by the memory lines.
pub open spec fn memory_context_text(
    m: MemoryPromptTemplate,
    memories: Seq<(Seq<char>, Seq<char>, Seq<char>)>,
) -> Seq<char> {
    if memories.len() == 0 {
        Seq::empty()
    } else {
        m.context_header@ + "\n"@ + memory_lines(m, memories)
    }
}

/// Version of a prompt configuration that does not give one.
pub fn default_version() -> (r: String)
    ensures
        r@ == "1.0"@,
{
    "1.0".to_owned()
}

/// `rand::random::<usize>()`: a number drawn uniformly from all `usize`
/// values. Nothing is stated of the draw.
#[verifier::external_body]
pub(crate) fn random_usize() -> usize {
    rand::random::<usize>()
}

pub(crate) fn join_with_newlines(lines: &[String]) -> (r: String)
    ensures
        r@ == join_lines(texts(lines@)),
{
    let mut r = String::new();
    let mut i: usize = 0;
    while i < lines.len()
        invariant
            i <= lines.len(),
            r@ == join_lines(texts(lines@.take(i as int))),
        decreases lines.len() - i,
    {
        proof {
            assert(texts(lines@.take(i + 1)).drop_last() =~= texts(lines@.take(i as int)));
            assert(texts(lines@.take(i + 1)).last() == lines@[i as int]@);
        }
        if i > 0 {
            r.append("\n");
        } else {
            assert(r@ =~= Seq::<char>::empty());
        }
        r.append(lines[i].as_str());
        proof {
            if i == 0 {
                assert(texts(lines@.take(1)) =~= seq![lines@[0]@]);
            }
        }
        i = i + 1;
    }
    assert(lines@.take(lines@.len() as int) =~= lines@);
    r
}

impl PromptConfig {
    /// The template used for a role: the role's own, or the default one.
    pub open spec fn template_for(&self, role: Seq<char>) -> SystemPromptTemplate {
        match lookup(self.system_prompts@, role) {
            Some(t) => t,
            None => self.default_system_prompt,
        }
    }

    /// Generate a complete system prompt for an NPC
    pub fn generate_system_prompt(
        &self,
        npc_name: &str,
        npc_role: &str,
        conversation_history: &[String],
    ) -> (r: String)
        ensures
            r@ == system_prompt_text(
                self.template_for(npc_role@),
                npc_name@,
                npc_role@,
                texts(conversation_history@),
            ),
    {
        proof {
            reveal_strlit("{npc_name}");
            reveal_strlit("{npc_role}");
            reveal_strlit("{conversation_history}");
        }
        let template = match self.system_prompts.get(npc_role) {
            Some(t) => t,
            None => &self.default_system_prompt,
        };
        let named = replace_str(template.base_description.as_str(), "{npc_name}", npc_name);
        let mut prompt = replace_str(named.as_str(), "{npc_role}", npc_role);
        let ghost base = prompt@;
        if template.behavior_guidelines.len() > 0 {
            prompt.append("\n\n");
            let ghost head = prompt@;
            let gl = &template.behavior_guidelines;
            let mut i: usize = 0;
            while i < gl.len()
                invariant
                    i <= gl.len(),
                    prompt@ == head + bullet_list(texts(gl@.take(i as int))),
                decreases gl.len() - i,
            {
                proof {
                    assert(texts(gl@.take(i + 1)).drop_last() =~= texts(gl@.take(i as int)));
                    assert(texts(gl@.take(i + 1)).last() == gl@[i as int]@);
                }
                prompt.append("- ");
                prompt.append(gl[i].as_str());
                prompt.append("\n");
                i = i + 1;
            }
            assert(gl@.take(gl@.len() as int) =~= gl@);
        }
        let ghost with_guidelines = prompt@;
        if !template.response_constraints.as_str().is_empty() {
            prompt.append("\n\n");
            prompt.append(template.response_constraints.as_str());
        }
        let ghost with_constraints = prompt@;
        if conversation_history.len() > 0 {
            let context = join_with_newlines(conversation_history);
            let section = replace_str(
                template.context_template.as_str(),
                "{conversation_history}",
                context.as_str(),
            );
            prompt.append("\n\n");
            prompt.append(section.as_str());
        }
        proof {
            let t = self.template_for(npc_role@);
            assert(*template == t);
            let g = if t.behavior_guidelines@.len() == 0 {
                Seq::<char>::empty()
            } else {
                "\n\n"@ + bullet_list(texts(t.behavior_guidelines@))
            };
            assert(with_guidelines =~= base + g);
            let c = if t.response_constraints@.len() == 0 {
                Seq::<char>::empty()
            } else {
                "\n\n"@ + t.response_constraints@
            };
            assert(with_constraints =~= base + g + c);
        }
        prompt
    }

    /// Generate an emotional modifier prompt
    pub fn generate_emotional_modifier(&self, dominant_emotion: &str, response_style: &str) -> (r:
        String)
        ensures
            r@ == emotional_modifier_text(self.emotional_prompts, dominant_emotion@, response_style@),
    {
        proof {
            reveal_strlit("{emotional_state}");
            reveal_strlit("{response_style}");
        }
        let emotion_desc = match self.emotional_prompts.emotional_states.get(dominant_emotion) {
            Some(s) => s.as_str(),
            None => "You are in a neutral emotional state.",
        };
        let style_desc = match self.emotional_prompts.response_styles.get(response_style) {
            Some(s) => s.as_str(),
            None => "Respond normally and professionally.",
        };
        let with_emotion = replace_str(
            self.emotional_prompts.modifier_template.as_str(),
            "{emotional_state}",
            emotion_desc,
        );
        replace_str(with_emotion.as_str(), "{response_style}", style_desc)
    }

    /// The description of a goal priority level (`high`, `medium` or
    /// `low`), or `fallback` when the configuration has none for it.
    pub fn priority_description(&self, level: &str, fallback: &str) -> (r: String)
        ensures
            r@ == description_or(self.goal_prompts.priority_descriptions@, level@, fallback@),
    {
        match self.goal_prompts.priority_descriptions.get(level) {
            Some(d) => d.clone(),
            None => fallback.to_owned(),
        }
    }

    /// The indicator of a memory importance level (`high`, `medium` or
    /// `low`), or `fallback` when the configuration has none for it.
    pub fn importance_indicator(&self, level: &str, fallback: &str) -> (r: String)
        ensures
            r@ == description_or(self.memory_prompts.importance_indicators@, level@, fallback@),
    {
        match self.memory_prompts.importance_indicators.get(level) {
            Some(d) => d.clone(),
            None => fallback.to_owned(),
        }
    }

    /// Generate a goal-oriented prompt. The priority is given by its
    /// description, and progress and motivation as the text to show.
    pub fn generate_goal_prompt(
        &self,
        goal_description: &str,
        goal_type: &str,
        priority_description: &str,
        progress: &str,
        motivation: &str,
    ) -> (r: String)
        ensures
            r@ == goal_prompt_text(
                self.goal_prompts,
                goal_description@,
                goal_type@,
                priority_description@,
                progress@,
                motivation@,
            ),
    {
        proof {
            reveal_strlit("{goal_description}");
            reveal_strlit("{goal_type}");
            reveal_strlit("{priority}");
            reveal_strlit("{progress}");
            reveal_strlit("{motivation}");
        }
        let type_desc = match self.goal_prompts.goal_type_descriptions.get(goal_type) {
            Some(d) => d.as_str(),
            None => "personal goal",
        };
        let t1 = replace_str(
            self.goal_prompts.goal_context_template.as_str(),
            "{goal_description}",
            goal_description,
        );
        let t2 = replace_str(t1.as_str(), "{goal_type}", type_desc);
        let t3 = replace_str(t2.as_str(), "{priority}", priority_description);
        let t4 = replace_str(t3.as_str(), "{progress}", progress);
        replace_str(t4.as_str(), "{motivation}", motivation)
    }

    /// Format memory context for inclusion in prompts. Each memory is its
    /// content, its category and the indicator of its importance.
    pub fn format_memory_context(&self, memories: &Vec<(String, String, String)>) -> (r: String)
        ensures
            r@ == memory_context_text(
                self.memory_prompts,
                memories@.map_values(|m: (String, String, String)| (m.0@, m.1@, m.2@)),
            ),
    {
        let ghost ms = memories@.map_values(|m: (String, String, String)| (m.0@, m.1@, m.2@));
        if memories.len() == 0 {
            return String::new();
        }
        let mut context = self.memory_prompts.context_header.clone();
        context.append("\n");
        let ghost head = context@;
        let mut i: usize = 0;
        while i < memories.len()
            invariant
                i <= memories.len(),
                ms == memories@.map_values(|m: (String, String, String)| (m.0@, m.1@, m.2@)),
                context@ == head + memory_lines(self.memory_prompts, ms.take(i as int)),
            decreases memories.len() - i,
        {
            proof {
                reveal_strlit("{content}");
                reveal_strlit("{category}");
                reveal_strlit("{importance}");
                assert(ms.take(i + 1).drop_last() =~= ms.take(i as int));
                assert(ms.take(i + 1).last() == ms[i as int]);
            }
            let (content, category, indicator) = (
                &memories[i].0,
                &memories[i].1,
                &memories[i].2,
            );
            let label = match self.memory_prompts.category_labels.get(category.as_str()) {
                Some(l) => l.as_str(),
                None => category.as_str(),
            };
            let f1 = replace_str(
                self.memory_prompts.memory_format.as_str(),
                "{content}",
                content.as_str(),
            );
            let f2 = replace_str(f1.as_str(), "{category}", label);
            let f3 = replace_str(f2.as_str(), "{importance}", indicator.as_str());
            context.append(f3.as_str());
            context.append("\n");
            i = i + 1;
        }
        assert(ms.take(memories@.len() as int) =~= ms);
        context
    }

    /// The greeting for a role when the random draw is `draw`.
    pub fn greeting_for_draw(&self, role: &str, draw: usize) -> (r: String)
        ensures
            r@ == phrase_for(lookup(self.greetings@, role@), draw, "Hello there!"@),
    {
        pick_phrase(self.greetings.get(role), draw, "Hello there!")
    }

    /// The farewell for a role when the random draw is `draw`.
    pub fn farewell_for_draw(&self, role: &str, draw: usize) -> (r: String)
        ensures
            r@ == phrase_for(lookup(self.farewells@, role@), draw, "Goodbye!"@),
    {
        pick_phrase(self.farewells.get(role), draw, "Goodbye!")
    }

    /// Get a random greeting for a role: one of the role's greetings, or
    /// "Hello there!" when the role has none.
    pub fn get_greeting(&self, role: &str) -> (r: String)
        ensures
            exists|draw: usize| r@ == #[trigger] phrase_for(
                lookup(self.greetings@, role@),
                draw,
                "Hello there!"@,
            ),
    {
        let draw = random_usize();
        self.greeting_for_draw(role, draw)
    }

    /// Get a random farewell for a role: one of the role's farewells, or
    /// "Goodbye!" when the role has none.
    pub fn get_farewell(&self, role: &str) -> (r: String)
        ensures
            exists|draw: usize| r@ == #[trigger] phrase_for(
                lookup(self.farewells@, role@),
                draw,
                "Goodbye!"@,
            ),
    {
        let draw = random_usize();
        self.farewell_for_draw(role, draw)
    }
}

fn pick_phrase(list: Option<&Vec<String>>, draw: usize, fallback: &str) -> (r: String)
    ensures
        r@ == phrase_for(
            match list {
                Some(l) => Some(*l),
                None => None,
            },
            draw,
            fallback@,
        ),
{
    match list {
        Some(l) => {
            if l.len() == 0 {
                fallback.to_owned()
            } else {
                l[draw % l.len()].clone()
            }
        },
        None => fallback.to_owned(),
    }
}

} // verus!
