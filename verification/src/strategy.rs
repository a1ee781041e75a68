//! Behavior selection strategies.
//!
//! A strategy picks, among the behaviors an NPC has, the one to execute for
//! the player's intent. What a strategy needs of each behavior is gathered
//! in a [`Candidate`]: whether the behavior's emotion trigger is satisfied
//! by the NPC's current feelings, whether it matches the intent, its base
//! priority and its emotional priority modifier.
use vstd::prelude::*;

use crate::text::{chars_of, push_chars};

verus! {

/// What a selection strategy knows of one behavior.
#[derive(Debug, Clone, Copy, PartialEq, Eq, Structural)]
pub struct Candidate {
    /// The behavior has no emotion trigger, or its trigger matches the
    /// current emotional state
    pub emotion_gate_open: bool,
    /// The behavior matches the player's intent
    pub matches_intent: bool,
    /// Base priority of the behavior
    pub priority: u32,
    /// Emotional priority modifier of the behavior
    pub emotional_modifier: i32,
}

/// `p as i32`: the two's complement reading of a `u32`.
pub open spec fn priority_as_i32(p: u32) -> int {
    if p <= i32::MAX {
        p as int
    } else {
        p - 0x1_0000_0000
    }
}

/// Priority used by the emotion-modulated strategy: base priority (read as
/// an `i32`) plus the emotional modifier.
pub open spec fn modulated_priority(c: Candidate) -> int {
    priority_as_i32(c.priority) + c.emotional_modifier
}

/// Whether the emotion-modulated strategy considers `c`.
pub open spec fn modulated_eligible(c: Candidate) -> bool {
    c.emotion_gate_open && c.matches_intent
}

/// Whether the fixed-priority strategy considers `c`.
pub open spec fn fixed_eligible(c: Candidate) -> bool {
    c.matches_intent
}

/// Whether `r` is the choice of the emotion-modulated strategy: nothing if
/// no behavior is eligible, else the first eligible behavior with the
/// highest modulated priority.
pub open spec fn is_modulated_choice(cs: Seq<Candidate>, r: Option<usize>) -> bool {
    match r {
        None => forall|j: int| 0 <= j < cs.len() ==> !modulated_eligible(#[trigger] cs[j]),
        Some(i) => {
            &&& i < cs.len()
            &&& modulated_eligible(cs[i as int])
            &&& forall|j: int|
                0 <= j < cs.len() && modulated_eligible(#[trigger] cs[j]) ==> modulated_priority(cs[j])
                    <= modulated_priority(cs[i as int])
            &&& forall|j: int|
                0 <= j < i && modulated_eligible(#[trigger] cs[j]) ==> modulated_priority(cs[j])
                    < modulated_priority(cs[i as int])
        },
    }
}

/// Whether `r` is the choice of the fixed-priority strategy: nothing if no
/// behavior matches the intent, else the first matching behavior with the
/// highest base priority.
pub open spec fn is_fixed_choice(cs: Seq<Candidate>, r: Option<usize>) -> bool {
    match r {
        None => forall|j: int| 0 <= j < cs.len() ==> !fixed_eligible(#[trigger] cs[j]),
        Some(i) => {
            &&& i < cs.len()
            &&& fixed_eligible(cs[i as int])
            &&& forall|j: int|
                0 <= j < cs.len() && fixed_eligible(#[trigger] cs[j]) ==> cs[j].priority
                    <= cs[i as int].priority
            &&& forall|j: int|
                0 <= j < i && fixed_eligible(#[trigger] cs[j]) ==> cs[j].priority
                    < cs[i as int].priority
        },
    }
}

/// The modulated priority of every eligible candidate fits in an `i32`.
pub open spec fn modulated_priorities_fit(cs: Seq<Candidate>) -> bool {
    forall|j: int|
        0 <= j < cs.len() && modulated_eligible(#[trigger] cs[j]) ==> i32::MIN
            <= modulated_priority(cs[j]) <= i32::MAX
}

/// At least two candidates are eligible, so that their modulated
/// priorities are compared.
pub open spec fn modulated_compared(cs: Seq<Candidate>) -> bool {
    exists|a: int, b: int|
        0 <= a < b < cs.len() && modulated_eligible(#[trigger] cs[a]) && modulated_eligible(
            #[trigger] cs[b],
        )
}

/// The emotion-modulated choice is determined by the candidates: two
/// selections over the same candidates agree.
pub proof fn lemma_modulated_choice_unique(cs: Seq<Candidate>, r1: Option<usize>, r2: Option<usize>)
    requires
        is_modulated_choice(cs, r1),
        is_modulated_choice(cs, r2),
    ensures
        r1 == r2,
{
    match (r1, r2) {
        (Some(i), Some(j)) => {
            if i < j {
                assert(modulated_eligible(cs[i as int]));
            } else if j < i {
                assert(modulated_eligible(cs[j as int]));
            }
        },
        (Some(i), None) => {
            assert(modulated_eligible(cs[i as int]));
        },
        (None, Some(j)) => {
            assert(modulated_eligible(cs[j as int]));
        },
        (None, None) => {},
    }
}

/// The fixed-priority choice is determined by the candidates: two
/// selections over the same candidates agree.
pub proof fn lemma_fixed_choice_unique(cs: Seq<Candidate>, r1: Option<usize>, r2: Option<usize>)
    requires
        is_fixed_choice(cs, r1),
        is_fixed_choice(cs, r2),
    ensures
        r1 == r2,
{
    match (r1, r2) {
        (Some(i), Some(j)) => {
            if i < j {
                assert(fixed_eligible(cs[i as int]));
            } else if j < i {
                assert(fixed_eligible(cs[j as int]));
            }
        },
        (Some(i), None) => {
            assert(fixed_eligible(cs[i as int]));
        },
        (None, Some(j)) => {
            assert(fixed_eligible(cs[j as int]));
        },
        (None, None) => {},
    }
}

/// Emotions never influence the fixed-priority strategy: candidates that
/// agree on intent matching and base priority, whatever their emotion
/// gates and modifiers, get the same choice.
pub proof fn lemma_fixed_ignores_emotions(
    cs1: Seq<Candidate>,
    cs2: Seq<Candidate>,
    r1: Option<usize>,
    r2: Option<usize>,
)
    requires
        cs1.len() == cs2.len(),
        forall|j: int|
            0 <= j < cs1.len() ==> (#[trigger] cs1[j]).matches_intent == cs2[j].matches_intent
                && cs1[j].priority == cs2[j].priority,
        is_fixed_choice(cs1, r1),
        is_fixed_choice(cs2, r2),
    ensures
        r1 == r2,
{
    assert(is_fixed_choice(cs2, r1)) by {
        match r1 {
            Some(i) => {
                assert(cs1[i as int] == cs1[i as int]);
                assert forall|j: int|
                    0 <= j < cs2.len() && fixed_eligible(#[trigger] cs2[j]) implies cs2[j].priority
                    <= cs2[i as int].priority by {
                    assert(fixed_eligible(cs1[j]));
                }
                assert forall|j: int|
                    0 <= j < i && fixed_eligible(#[trigger] cs2[j]) implies cs2[j].priority
                    < cs2[i as int].priority by {
                    assert(fixed_eligible(cs1[j]));
                }
            },
            None => {
                assert forall|j: int| 0 <= j < cs2.len() implies !fixed_eligible(
                    #[trigger] cs2[j],
                ) by {
                    assert(!fixed_eligible(cs1[j]));
                }
            },
        }
    }
    lemma_fixed_choice_unique(cs2, r1, r2);
}

/// Without emotional influence the two strategies agree: when every emotion
/// gate is open, every modifier is zero and base priorities read the same
/// as `i32`, the emotion-modulated strategy chooses what the fixed-priority
/// strategy chooses.
pub proof fn lemma_neutral_emotions_fixed_order(cs: Seq<Candidate>, r1: Option<usize>, r2: Option<usize>)
    requires
        forall|j: int|
            0 <= j < cs.len() ==> (#[trigger] cs[j]).emotion_gate_open && cs[j].emotional_modifier
                == 0 && cs[j].priority <= i32::MAX,
        is_modulated_choice(cs, r1),
        is_fixed_choice(cs, r2),
    ensures
        r1 == r2,
{
    assert(is_fixed_choice(cs, r1)) by {
        match r1 {
            Some(i) => {
                assert(cs[i as int].emotion_gate_open);
                assert forall|j: int|
                    0 <= j < cs.len() && fixed_eligible(#[trigger] cs[j]) implies cs[j].priority
                    <= cs[i as int].priority by {
                    assert(modulated_eligible(cs[j]));
                }
                assert forall|j: int|
                    0 <= j < i && fixed_eligible(#[trigger] cs[j]) implies cs[j].priority
                    < cs[i as int].priority by {
                    assert(modulated_eligible(cs[j]));
                }
            },
            None => {
                assert forall|j: int| 0 <= j < cs.len() implies !fixed_eligible(#[trigger] cs[j]) by {
                    assert(!modulated_eligible(cs[j]));
                }
            },
        }
    }
    lemma_fixed_choice_unique(cs, r1, r2);
}

/// An emotionally appropriate behavior that matches the intent guarantees a
/// response: the emotion-modulated strategy then always chooses something,
/// and never a behavior whose emotion gate is closed.
pub proof fn lemma_modulated_responsive(cs: Seq<Candidate>, r: Option<usize>, j: int)
    requires
        is_modulated_choice(cs, r),
        0 <= j < cs.len(),
        modulated_eligible(cs[j]),
    ensures
        r is Some,
        cs[r->0 as int].emotion_gate_open,
{
}

/// `p as i32`, computed without a cast.
pub(crate) fn priority_i32(p: u32) -> (r: i64)
    ensures
        r == priority_as_i32(p),
{
    if p <= 0x7fff_ffff {
        p as i64
    } else {
        p as i64 - 0x1_0000_0000
    }
}

/// Emotion-modulated priority selection strategy
///
/// Behaviors whose emotion trigger does not match the current emotional
/// state are filtered out; among those that remain and match the intent,
/// the one with the highest base priority plus emotional modifier is
/// chosen, the earlier one on a tie.
#[derive(Debug, Clone, Copy)]
pub struct EmotionModulatedStrategy;

impl EmotionModulatedStrategy {
    /// Create a new emotion-modulated selection strategy
    pub fn new() -> (r: EmotionModulatedStrategy)
        ensures
            r == EmotionModulatedStrategy,
    {
        EmotionModulatedStrategy
    }

    /// Get the name of this strategy
    pub fn name(&self) -> (r: &'static str)
        ensures
            r@ == "emotion_modulated"@,
    {
        "emotion_modulated"
    }

    /// The position of the behavior to execute, or `None` when no behavior
    /// is both emotionally appropriate and matching the intent. Where
    /// priorities are compared, each modulated priority must fit in an `i32`.
    pub fn select(&self, candidates: &Vec<Candidate>) -> (r: Option<usize>)
        requires
            modulated_compared(candidates@) ==> modulated_priorities_fit(candidates@),
        ensures
            is_modulated_choice(candidates@, r),
    {
        let mut best: Option<usize> = None;
        let mut best_priority: i64 = 0;
        let mut k: usize = 0;
        while k < candidates.len()
            invariant
                k <= candidates.len(),
                match best {
                    None => forall|j: int| 0 <= j < k ==> !modulated_eligible(#[trigger] candidates@[j]),
                    Some(i) => {
                        &&& i < k
                        &&& modulated_eligible(candidates@[i as int])
                        &&& best_priority == modulated_priority(candidates@[i as int])
                        &&& forall|j: int|
                            0 <= j < k && modulated_eligible(#[trigger] candidates@[j])
                                ==> modulated_priority(candidates@[j]) <= best_priority
                        &&& forall|j: int|
                            0 <= j < i && modulated_eligible(#[trigger] candidates@[j])
                                ==> modulated_priority(candidates@[j]) < best_priority
                    },
                },
            decreases candidates.len() - k,
        {
            let c = candidates[k];
            if c.emotion_gate_open && c.matches_intent {
                let p = priority_i32(c.priority) + c.emotional_modifier as i64;
                match best {
                    None => {
                        best = Some(k);
                        best_priority = p;
                    },
                    Some(_) => {
                        if p > best_priority {
                            best = Some(k);
                            best_priority = p;
                        }
                    },
                }
            }
            k = k + 1;
        }
        best
    }
}

/// Fixed priority selection strategy (baseline)
///
/// Emotions are ignored: among the behaviors matching the intent, the one
/// with the highest base priority is chosen, the earlier one on a tie.
#[derive(Debug, Clone, Copy)]
pub struct FixedPriorityStrategy;

impl FixedPriorityStrategy {
    /// Create a new fixed-priority selection strategy
    pub fn new() -> (r: FixedPriorityStrategy)
        ensures
            r == FixedPriorityStrategy,
    {
        FixedPriorityStrategy
    }

    /// Get the name of this strategy
    pub fn name(&self) -> (r: &'static str)
        ensures
            r@ == "fixed_priority"@,
    {
        "fixed_priority"
    }

    /// The position of the behavior to execute, or `None` when no behavior
    /// matches the intent.
    pub fn select(&self, candidates: &Vec<Candidate>) -> (r: Option<usize>)
        ensures
            is_fixed_choice(candidates@, r),
    {
        let mut best: Option<usize> = None;
        let mut best_priority: u32 = 0;
        let mut k: usize = 0;
        while k < candidates.len()
            invariant
                k <= candidates.len(),
                match best {
                    None => forall|j: int| 0 <= j < k ==> !fixed_eligible(#[trigger] candidates@[j]),
                    Some(i) => {
                        &&& i < k
                        &&& fixed_eligible(candidates@[i as int])
                        &&& best_priority == candidates@[i as int].priority
                        &&& forall|j: int|
                            0 <= j < k && fixed_eligible(#[trigger] candidates@[j])
                                ==> candidates@[j].priority <= best_priority
                        &&& forall|j: int|
                            0 <= j < i && fixed_eligible(#[trigger] candidates@[j])
                                ==> candidates@[j].priority < best_priority
                    },
                },
            decreases candidates.len() - k,
        {
            let c = candidates[k];
            if c.matches_intent {
                match best {
                    None => {
                        best = Some(k);
                        best_priority = c.priority;
                    },
                    Some(_) => {
                        if c.priority > best_priority {
                            best = Some(k);
                            best_priority = c.priority;
                        }
                    },
                }
            }
            k = k + 1;
        }
        best
    }
}

/// Positions of the candidates that match the intent, in order.
pub open spec fn matching_positions(cs: Seq<Candidate>) -> Seq<usize>
    decreases cs.len(),
{
    if cs.len() == 0 {
        Seq::empty()
    } else if cs.last().matches_intent {
        matching_positions(cs.drop_last()).push((cs.len() - 1) as usize)
    } else {
        matching_positions(cs.drop_last())
    }
}

proof fn lemma_matching_positions(cs: Seq<Candidate>)
    requires
        cs.len() <= usize::MAX,
    ensures
        forall|k: int|
            0 <= k < matching_positions(cs).len() ==> (#[trigger] matching_positions(cs)[k])
                < cs.len() && cs[matching_positions(cs)[k] as int].matches_intent,
        (matching_positions(cs).len() == 0) == (forall|j: int|
            0 <= j < cs.len() ==> !fixed_eligible(#[trigger] cs[j])),
    decreases cs.len(),
{
    if cs.len() > 0 {
        lemma_matching_positions(cs.drop_last());
        let mp = matching_positions(cs);
        let prev = matching_positions(cs.drop_last());
        if cs.last().matches_intent {
            assert(mp == prev.push((cs.len() - 1) as usize));
        } else {
            assert(mp == prev);
        }
        assert forall|k: int| 0 <= k < mp.len() implies (#[trigger] mp[k]) < cs.len()
            && cs[mp[k] as int].matches_intent by {
            if k < prev.len() {
                assert(mp[k] == prev[k]);
                assert(cs.drop_last()[prev[k] as int] == cs[prev[k] as int]);
            } else {
                assert(cs.last().matches_intent);
                assert(mp[k] == (cs.len() - 1) as usize);
            }
        }
        if !cs.last().matches_intent && matching_positions(cs).len() == 0 {
            assert forall|j: int| 0 <= j < cs.len() implies !fixed_eligible(#[trigger] cs[j]) by {
                if j < cs.len() - 1 {
                    assert(cs.drop_last()[j] == cs[j]);
                }
            }
        }
        if matching_positions(cs).len() != 0 && !cs.last().matches_intent {
            let k = choose|j: int| 0 <= j < cs.drop_last().len() && fixed_eligible(#[trigger] cs.drop_last()[j]);
            assert(cs[k] == cs.drop_last()[k]);
        }
    }
}

/// `rand::Rng::gen_range` on the thread-local generator: a number drawn
/// uniformly from `0..bound`. Only the range of the draw is stated.
#[verifier::external_body]
fn random_below(bound: usize) -> (r: usize)
    requires
        bound > 0,
    ensures
        r < bound,
{
    rand::Rng::gen_range(&mut rand::thread_rng(), 0..bound)
}

/// Random selection from matching behaviors (research baseline)
///
/// Emotions and priorities are ignored: one of the behaviors matching the
/// intent is drawn at random.
#[derive(Debug, Clone, Copy)]
pub struct RandomSelectionStrategy;

impl RandomSelectionStrategy {
    /// Get the name of this strategy
    pub fn name(&self) -> (r: &'static str)
        ensures
            r@ == "random_selection"@,
    {
        "random_selection"
    }

    /// Positions of the candidates that match the intent.
    pub fn matching(&self, candidates: &Vec<Candidate>) -> (r: Vec<usize>)
        ensures
            r@ == matching_positions(candidates@),
    {
        let mut r: Vec<usize> = Vec::new();
        let mut k: usize = 0;
        while k < candidates.len()
            invariant
                k <= candidates.len(),
                r@ == matching_positions(candidates@.take(k as int)),
            decreases candidates.len() - k,
        {
            proof {
                assert(candidates@.take(k + 1).drop_last() =~= candidates@.take(k as int));
            }
            if candidates[k].matches_intent {
                r.push(k);
            }
            k = k + 1;
        }
        assert(candidates@.take(candidates@.len() as int) =~= candidates@);
        r
    }

    /// The behavior chosen when the draw among the matching behaviors is
    /// `draw`: the `draw`-th matching one, counting from zero.
    pub fn select_with(&self, candidates: &Vec<Candidate>, draw: usize) -> (r: usize)
        requires
            draw < matching_positions(candidates@).len(),
        ensures
            r == matching_positions(candidates@)[draw as int],
            r < candidates@.len(),
            candidates@[r as int].matches_intent,
    {
        proof {
            assert(candidates@.len() == candidates.len());
            lemma_matching_positions(candidates@);
        }
        let positions = self.matching(candidates);
        positions[draw]
    }

    /// The position of a behavior matching the intent, drawn at random, or
    /// `None` when no behavior matches.
    pub fn select(&self, candidates: &Vec<Candidate>) -> (r: Option<usize>)
        ensures
            match r {
                None => forall|j: int| 0 <= j < candidates@.len() ==> !fixed_eligible(
                    #[trigger] candidates@[j],
                ),
                Some(i) => i < candidates@.len() && candidates@[i as int].matches_intent
                    && matching_positions(candidates@).contains(i),
            },
    {
        proof {
            assert(candidates@.len() == candidates.len());
            lemma_matching_positions(candidates@);
        }
        let positions = self.matching(candidates);
        if positions.len() == 0 {
            None
        } else {
            let draw = random_below(positions.len());
            let i = self.select_with(candidates, draw);
            assert(matching_positions(candidates@)[draw as int] == i);
            Some(i)
        }
    }
}

/// The characters of `s` before its first opening parenthesis (all of
/// them when there is none).
pub open spec fn before_paren(s: Seq<char>) -> Seq<char>
    decreases s.len(),
{
    if s.len() == 0 || s[0] == '(' {
        Seq::empty()
    } else {
        seq![s[0]] + before_paren(s.skip(1))
    }
}

/// The name a strategy reports for the behavior it selected: the
/// behavior's description up to its first opening parenthesis.
pub fn behavior_name(description: &str) -> (r: String)
    ensures
        r@ == before_paren(description@),
{
    let v = chars_of(description);
    let mut i: usize = 0;
    assert(v@.skip(0) =~= v@);
    assert(v@.take(0) =~= Seq::<char>::empty());
    while i < v.len() && v[i] != '('
        invariant
            i <= v.len(),
            v@ == description@,
            before_paren(v@) == v@.take(i as int) + before_paren(v@.skip(i as int)),
        decreases v.len() - i,
    {
        proof {
            let rest = v@.skip(i as int);
            assert(rest[0] == v@[i as int]);
            assert(rest.skip(1) =~= v@.skip(i + 1));
            assert(v@.take(i + 1) =~= v@.take(i as int) + seq![v@[i as int]]);
        }
        i = i + 1;
    }
    proof {
        let rest = v@.skip(i as int);
        if i < v.len() {
            assert(rest[0] == '(');
        }
        assert(before_paren(rest) =~= Seq::<char>::empty());
        assert(v@.take(i as int) + Seq::<char>::empty() =~= v@.take(i as int));
        assert(v@.subrange(0, i as int) =~= v@.take(i as int));
    }
    let mut r = String::new();
    push_chars(&mut r, &v, 0, i);
    assert(r@ =~= v@.take(i as int));
    r
}

} // verus!
