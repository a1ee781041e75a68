//! States an agent moves through, the events it reports, and the decisions
//! it takes while answering one player input.
//!
//! Answering an input interleaves outside work (analysing the intent,
//! running behaviors, asking the inference engine, remembering) with
//! decisions. The decisions are [`turn_step`]: from the agent's state and
//! what the last piece of work produced, the next state and what to do next.
use vstd::prelude::*;

use crate::behavior::BehaviorResult;
use crate::text::{str_eq, str_lowercase, to_lowercase};

verus! {

/// Agent state
#[derive(Debug, Clone, Copy, PartialEq, Eq, Structural)]
pub enum AgentState {
    /// Agent is initializing
    Initializing,
    /// Agent is idle
    Idle,
    /// Agent is processing input
    Processing,
    /// Agent is generating a response
    Generating,
    /// Agent is executing a behavior
    Executing,
    /// Agent is paused
    Paused,
    /// Agent is stopped
    Stopped,
    /// Agent has encountered an error
    Error,
}

/// Agent event types for callbacks
#[derive(Debug, Clone, Copy, PartialEq, Eq, Hash, Structural)]
pub enum AgentEvent {
    /// Agent has started
    Start,
    /// Agent has stopped
    Stop,
    /// Agent is performing an action
    Action,
    /// Agent has generated a response
    Response,
    /// Agent state has changed
    StateChange,
    /// Agent encountered an error
    Error,
}

/// The name under which an event is reported to callbacks.
pub open spec fn event_name(e: AgentEvent) -> Seq<char> {
    match e {
        AgentEvent::Start => "start"@,
        AgentEvent::Stop => "stop"@,
        AgentEvent::Action => "action"@,
        AgentEvent::Response => "response"@,
        AgentEvent::StateChange => "state_change"@,
        AgentEvent::Error => "error"@,
    }
}

/// The event that an already lowercased name denotes, if any.
pub open spec fn event_from_name(n: Seq<char>) -> Option<AgentEvent> {
    if n == "start"@ {
        Some(AgentEvent::Start)
    } else if n == "stop"@ {
        Some(AgentEvent::Stop)
    } else if n == "action"@ {
        Some(AgentEvent::Action)
    } else if n == "response"@ {
        Some(AgentEvent::Response)
    } else if n == "state_change"@ || n == "statechange"@ {
        Some(AgentEvent::StateChange)
    } else if n == "error"@ {
        Some(AgentEvent::Error)
    } else {
        None
    }
}

impl AgentEvent {
    /// Convert to string representation
    pub fn as_str(&self) -> (r: &'static str)
        ensures
            r@ == event_name(*self),
    {
        match self {
            AgentEvent::Start => "start",
            AgentEvent::Stop => "stop",
            AgentEvent::Action => "action",
            AgentEvent::Response => "response",
            AgentEvent::StateChange => "state_change",
            AgentEvent::Error => "error",
        }
    }

    /// Convert from an already lowercased string representation.
    pub fn from_lowercase(s: &str) -> (r: Option<AgentEvent>)
        ensures
            r == event_from_name(s@),
    {
        if str_eq(s, "start") {
            Some(AgentEvent::Start)
        } else if str_eq(s, "stop") {
            Some(AgentEvent::Stop)
        } else if str_eq(s, "action") {
            Some(AgentEvent::Action)
        } else if str_eq(s, "response") {
            Some(AgentEvent::Response)
        } else if str_eq(s, "state_change") || str_eq(s, "statechange") {
            Some(AgentEvent::StateChange)
        } else if str_eq(s, "error") {
            Some(AgentEvent::Error)
        } else {
            None
        }
    }

    /// Convert from string representation, ignoring case.
    pub fn from_str(s: &str) -> (r: Option<AgentEvent>)
        ensures
            r == event_from_name(str_lowercase(s@)),
    {
        let lower = to_lowercase(s);
        AgentEvent::from_lowercase(lower.as_str())
    }
}

/// Every event's name is read back as that event.
pub proof fn lemma_event_name_round_trip(e: AgentEvent)
    ensures
        event_from_name(event_name(e)) == Some(e),
{
    reveal_strlit("start");
    reveal_strlit("stop");
    reveal_strlit("action");
    reveal_strlit("response");
    reveal_strlit("state_change");
    reveal_strlit("statechange");
    reveal_strlit("error");
    assert("start"@.len() == 5 && "stop"@.len() == 4 && "action"@.len() == 6);
    assert("response"@.len() == 8 && "state_change"@.len() == 12 && "error"@.len() == 5);
    assert("error"@[0] != "start"@[0]);
    assert("error"@ != "start"@);
}

/// What the agent learns while it answers one player input.
#[derive(Debug, Clone)]
pub enum TurnEvent {
    /// The input's intent has been analysed and the input remembered
    InputAnalysed,
    /// A behavior that matches the intent was executed and gave this result
    BehaviorDone(BehaviorResult),
    /// Every behavior that matches the intent has been executed
    BehaviorsExhausted,
    /// The inference engine produced this reply
    ReplyGenerated(String),
}

/// What the agent does next while it answers one player input.
#[derive(Debug, Clone)]
pub enum TurnCommand {
    /// Execute the next behavior that matches the intent
    RunNextBehavior,
    /// Report this action to the action callbacks, then execute the next
    /// behavior that matches the intent
    ReportAction(String),
    /// Generate a reply with the inference engine from relevant memories
    GenerateReply,
    /// Remember this generated reply, then answer with it
    RememberAndAnswer(String),
    /// Answer the player with this text
    Answer(String),
}

/// The states in which a turn is under way, and the events each expects.
pub open spec fn turn_accepts(state: AgentState, event: TurnEvent) -> bool {
    match event {
        TurnEvent::InputAnalysed => state == AgentState::Processing,
        TurnEvent::BehaviorDone(_) => state == AgentState::Executing,
        TurnEvent::BehaviorsExhausted => state == AgentState::Executing,
        TurnEvent::ReplyGenerated(_) => state == AgentState::Generating,
    }
}

/// One decision of a turn. Once the intent is known the agent executes the
/// matching behaviors in order; the first one that responds ends that
/// search, and its text is the answer unless it is empty. An action is
/// reported and the search goes on, as it does after a behavior with no
/// result. When no behavior gave a non-empty response, the inference
/// engine generates the answer, which is remembered before it is given.
/// The agent is idle once it answers.
pub open spec fn turn_transition(state: AgentState, event: TurnEvent) -> (AgentState, TurnCommand) {
    match event {
        TurnEvent::InputAnalysed => (AgentState::Executing, TurnCommand::RunNextBehavior),
        TurnEvent::BehaviorDone(BehaviorResult::Response(t)) => if t@.len() > 0 {
            (AgentState::Idle, TurnCommand::Answer(t))
        } else {
            (AgentState::Generating, TurnCommand::GenerateReply)
        },
        TurnEvent::BehaviorDone(BehaviorResult::Action(a)) => (
            AgentState::Executing,
            TurnCommand::ReportAction(a),
        ),
        TurnEvent::BehaviorDone(BehaviorResult::NoResult) => (
            AgentState::Executing,
            TurnCommand::RunNextBehavior,
        ),
        TurnEvent::BehaviorsExhausted => (AgentState::Generating, TurnCommand::GenerateReply),
        TurnEvent::ReplyGenerated(t) => (AgentState::Idle, TurnCommand::RememberAndAnswer(t)),
    }
}

/// The state an agent enters when a player input arrives.
pub fn turn_start() -> (r: AgentState)
    ensures
        r == AgentState::Processing,
{
    AgentState::Processing
}

/// Decide the next state and command of a turn from what the last piece of
/// work produced.
pub fn turn_step(state: AgentState, event: TurnEvent) -> (r: (AgentState, TurnCommand))
    requires
        turn_accepts(state, event),
    ensures
        r == turn_transition(state, event),
{
    match event {
        TurnEvent::InputAnalysed => (AgentState::Executing, TurnCommand::RunNextBehavior),
        TurnEvent::BehaviorDone(result) => match result {
            BehaviorResult::Response(t) => {
                if t.as_str().is_empty() {
                    (AgentState::Generating, TurnCommand::GenerateReply)
                } else {
                    (AgentState::Idle, TurnCommand::Answer(t))
                }
            },
            BehaviorResult::Action(a) => (AgentState::Executing, TurnCommand::ReportAction(a)),
            BehaviorResult::NoResult => (AgentState::Executing, TurnCommand::RunNextBehavior),
        },
        TurnEvent::BehaviorsExhausted => (AgentState::Generating, TurnCommand::GenerateReply),
        TurnEvent::ReplyGenerated(t) => (AgentState::Idle, TurnCommand::RememberAndAnswer(t)),
    }
}

/// The text of the first response among the results of the behaviors,
/// taken in the order they were executed.
pub open spec fn first_response(outcomes: Seq<BehaviorResult>) -> Option<Seq<char>>
    decreases outcomes.len(),
{
    if outcomes.len() == 0 {
        None
    } else {
        match outcomes[0] {
            BehaviorResult::Response(t) => Some(t@),
            _ => first_response(outcomes.skip(1)),
        }
    }
}

/// The actions among the results of the behaviors before the first
/// response.
pub open spec fn actions_before_response(outcomes: Seq<BehaviorResult>) -> Seq<Seq<char>>
    decreases outcomes.len(),
{
    if outcomes.len() == 0 {
        Seq::empty()
    } else {
        match outcomes[0] {
            BehaviorResult::Response(_) => Seq::empty(),
            BehaviorResult::Action(a) => seq![a@] + actions_before_response(outcomes.skip(1)),
            BehaviorResult::NoResult => actions_before_response(outcomes.skip(1)),
        }
    }
}

/// The answer a command gives, if it gives one.
pub open spec fn answer_of(c: TurnCommand) -> Option<Seq<char>> {
    match c {
        TurnCommand::Answer(t) => Some(t@),
        TurnCommand::RememberAndAnswer(t) => Some(t@),
        _ => None,
    }
}

/// The actions that a run of commands reports, in order.
pub open spec fn reported_actions(cs: Seq<TurnCommand>) -> Seq<Seq<char>>
    decreases cs.len(),
{
    if cs.len() == 0 {
        Seq::empty()
    } else {
        let head = match cs[0] {
            TurnCommand::ReportAction(a) => seq![a@],
            _ => Seq::empty(),
        };
        head + reported_actions(cs.skip(1))
    }
}

/// The commands of a turn from the moment the agent executes behaviors,
/// when the executed behaviors give `outcomes` in order (as long as the
/// agent asks for more) and the inference engine, if asked, replies
/// `generated`: each event is decided by [`turn_transition`].
pub open spec fn drive_behaviors(outcomes: Seq<BehaviorResult>, generated: String) -> (
    AgentState,
    Seq<TurnCommand>,
)
    decreases outcomes.len(),
{
    if outcomes.len() == 0 {
        let (s1, c1) = turn_transition(AgentState::Executing, TurnEvent::BehaviorsExhausted);
        let (s2, c2) = turn_transition(s1, TurnEvent::ReplyGenerated(generated));
        (s2, seq![c1, c2])
    } else {
        let (s1, c1) = turn_transition(
            AgentState::Executing,
            TurnEvent::BehaviorDone(outcomes[0]),
        );
        if s1 == AgentState::Executing {
            let (s, cs) = drive_behaviors(outcomes.skip(1), generated);
            (s, seq![c1] + cs)
        } else if s1 == AgentState::Generating {
            let (s2, c2) = turn_transition(s1, TurnEvent::ReplyGenerated(generated));
            (s2, seq![c1, c2])
        } else {
            (s1, seq![c1])
        }
    }
}

/// A whole turn: the intent is analysed, then behaviors run as in
/// [`drive_behaviors`].
pub open spec fn drive_turn(outcomes: Seq<BehaviorResult>, generated: String) -> (
    AgentState,
    Seq<TurnCommand>,
) {
    let (s0, c0) = turn_transition(AgentState::Processing, TurnEvent::InputAnalysed);
    let (s, cs) = drive_behaviors(outcomes, generated);
    (s, seq![c0] + cs)
}

/// The answer of a turn: the first response of a behavior when it is not
/// empty, else the generated reply.
pub open spec fn expected_answer(outcomes: Seq<BehaviorResult>, generated: Seq<char>) -> Seq<char> {
    match first_response(outcomes) {
        Some(t) => if t.len() > 0 {
            t
        } else {
            generated
        },
        None => generated,
    }
}

proof fn lemma_reported_single(c: TurnCommand)
    ensures
        reported_actions(seq![c]) == (match c {
            TurnCommand::ReportAction(a) => seq![a@],
            _ => Seq::<Seq<char>>::empty(),
        }),
{
    let empty = Seq::<TurnCommand>::empty();
    assert(seq![c].skip(1) =~= empty);
    assert(reported_actions(empty) == Seq::<Seq<char>>::empty());
    let head = match c {
        TurnCommand::ReportAction(a) => seq![a@],
        _ => Seq::<Seq<char>>::empty(),
    };
    assert(reported_actions(seq![c]) == head + reported_actions(empty));
    assert(head + Seq::<Seq<char>>::empty() =~= head);
}

proof fn lemma_reported_prefix(c: TurnCommand, cs: Seq<TurnCommand>)
    ensures
        reported_actions(seq![c] + cs) == reported_actions(seq![c]) + reported_actions(cs),
{
    assert((seq![c] + cs).skip(1) =~= cs);
    assert(seq![c].skip(1) =~= Seq::<TurnCommand>::empty());
    assert(reported_actions(seq![c]) =~= reported_actions(seq![c]) + reported_actions(
        Seq::<TurnCommand>::empty(),
    ));
}

proof fn lemma_drive_behaviors(outcomes: Seq<BehaviorResult>, generated: String)
    ensures
        ({
            let (s, cs) = drive_behaviors(outcomes, generated);
            &&& s == AgentState::Idle
            &&& cs.len() > 0
            &&& answer_of(cs.last()) == Some(expected_answer(outcomes, generated@))
            &&& forall|i: int| 0 <= i < cs.len() - 1 ==> answer_of(#[trigger] cs[i]) is None
            &&& reported_actions(cs) == actions_before_response(outcomes)
            &&& (cs.last() is RememberAndAnswer <==> !(first_response(outcomes) matches Some(t)
                && t.len() > 0))
        }),
    decreases outcomes.len(),
{
    let (s, cs) = drive_behaviors(outcomes, generated);
    if outcomes.len() == 0 {
        let c1 = TurnCommand::GenerateReply;
        let c2 = TurnCommand::RememberAndAnswer(generated);
        assert(cs == seq![c1, c2]);
        assert(seq![c1, c2] =~= seq![c1] + seq![c2]);
        lemma_reported_prefix(c1, seq![c2]);
        lemma_reported_single(c1);
        lemma_reported_single(c2);
        assert(reported_actions(cs) =~= Seq::<Seq<char>>::empty());
    } else {
        let (s1, c1) = turn_transition(
            AgentState::Executing,
            TurnEvent::BehaviorDone(outcomes[0]),
        );
        if s1 == AgentState::Executing {
            lemma_drive_behaviors(outcomes.skip(1), generated);
            let (s_rest, cs_rest) = drive_behaviors(outcomes.skip(1), generated);
            assert(cs == seq![c1] + cs_rest);
            lemma_reported_prefix(c1, cs_rest);
            assert((seq![c1] + cs_rest).last() == cs_rest.last());
            assert forall|i: int| 0 <= i < cs.len() - 1 implies answer_of(#[trigger] cs[i]) is None by {
                if i > 0 {
                    assert(cs[i] == cs_rest[i - 1]);
                }
            }
            lemma_reported_single(c1);
            match outcomes[0] {
                BehaviorResult::Action(a) => {},
                _ => {
                    assert(reported_actions(cs) =~= reported_actions(cs_rest));
                },
            }
        } else if s1 == AgentState::Generating {
            let c2 = TurnCommand::RememberAndAnswer(generated);
            assert(cs == seq![c1, c2]);
            assert(seq![c1, c2] =~= seq![c1] + seq![c2]);
            lemma_reported_prefix(c1, seq![c2]);
            lemma_reported_single(c1);
            lemma_reported_single(c2);
            assert(reported_actions(cs) =~= Seq::<Seq<char>>::empty());
        } else {
            assert(cs == seq![c1]);
            lemma_reported_single(c1);
        }
    }
}

/// A turn always ends with the agent idle and answering exactly once, as
/// its last command. The answer is the first behavior response when that
/// response is not empty; otherwise it is the reply the inference engine
/// generated, and it is remembered before it is given. The actions the
/// turn reports are exactly those the behaviors produced before the first
/// response, in order.
pub proof fn lemma_turn_answer(outcomes: Seq<BehaviorResult>, generated: String)
    ensures
        ({
            let (s, cs) = drive_turn(outcomes, generated);
            &&& s == AgentState::Idle
            &&& cs.len() > 0
            &&& answer_of(cs.last()) == Some(expected_answer(outcomes, generated@))
            &&& forall|i: int| 0 <= i < cs.len() - 1 ==> answer_of(#[trigger] cs[i]) is None
            &&& reported_actions(cs) == actions_before_response(outcomes)
            &&& (cs.last() is RememberAndAnswer <==> !(first_response(outcomes) matches Some(t)
                && t.len() > 0))
        }),
{
    lemma_drive_behaviors(outcomes, generated);
    let (s, rest) = drive_behaviors(outcomes, generated);
    let c0 = TurnCommand::RunNextBehavior;
    let cs = seq![c0] + rest;
    lemma_reported_prefix(c0, rest);
    lemma_reported_single(c0);
    assert(reported_actions(cs) =~= reported_actions(rest));
    assert(cs.last() == rest.last());
    assert forall|i: int| 0 <= i < cs.len() - 1 implies answer_of(#[trigger] cs[i]) is None by {
        if i > 0 {
            assert(cs[i] == rest[i - 1]);
        }
    }
}

} // verus!
