//! Agent state: messages, model, thinking level, system prompt.

use crate::messages;
use crate::messages::{Message, MessageView};
use crate::model::{Model, ModelView, ThinkingLevel};
use vstd::prelude::*;

verus! {

/// Where an agent run stands.
#[derive(Debug, Clone, Copy, PartialEq, Eq, Structural)]
pub enum Phase {
    Idle,
    Streaming,
    RunningTools,
    Compacting,
}

/// What an agent knows.
#[derive(Debug)]
pub struct AgentState {
    pub messages: Vec<Message>,
    pub model: Option<Model>,
    pub thinking_level: ThinkingLevel,
    pub system_prompt: String,
}

/// What an `AgentState` denotes.
pub struct AgentStateView {
    pub messages: Seq<MessageView>,
    pub model: Option<ModelView>,
    pub thinking_level: ThinkingLevel,
    pub system_prompt: Seq<char>,
}

impl View for AgentState {
    type V = AgentStateView;

    open spec fn view(&self) -> AgentStateView {
        AgentStateView {
            messages: messages::views(self.messages@),
            model: match self.model {
                Some(m) => Some(m@),
                None => None,
            },
            thinking_level: self.thinking_level,
            system_prompt: self.system_prompt@,
        }
    }
}

/// The state of an agent that has done nothing.
pub open spec fn initial_state() -> AgentStateView {
    AgentStateView {
        messages: Seq::empty(),
        model: None,
        thinking_level: ThinkingLevel::Medium,
        system_prompt: Seq::empty(),
    }
}

/// The state with one more message.
pub open spec fn pushed(s: AgentStateView, m: MessageView) -> AgentStateView {
    AgentStateView { messages: s.messages.push(m), ..s }
}

impl AgentState {
    /// The state of an agent that has done nothing.
    pub fn new() -> (r: Self)
        ensures
            r@ == initial_state(),
    {
        let r = AgentState {
            messages: Vec::new(),
            model: None,
            thinking_level: ThinkingLevel::Medium,
            system_prompt: String::new(),
        };
        assert(r@.messages =~= Seq::empty());
        r
    }

    /// Adds a message behind the others.
    pub fn push_message(&mut self, m: Message)
        ensures
            final(self)@ == pushed(old(self)@, m@),
    {
        let ghost before = self.messages@;
        self.messages.push(m);
        assert(messages::views(self.messages@) =~= messages::views(before).push(m@));
    }
}

impl Clone for AgentState {
    fn clone(&self) -> (r: Self)
        ensures
            r@ == self@,
    {
        AgentState {
            messages: messages::clone_messages(&self.messages),
            model: match &self.model {
                Some(m) => Some(m.clone()),
                None => None,
            },
            thinking_level: self.thinking_level,
            system_prompt: self.system_prompt.clone(),
        }
    }
}

impl Default for AgentState {
    fn default() -> (r: Self)
        ensures
            r@ == initial_state(),
    {
        AgentState::new()
    }
}

// ---- laws ---------------------------------------------------------------------------------------

/// A snapshot that was taken before a push stays what it was: it shows all that the state
/// shows, but for the new message.
pub proof fn snapshot_misses_the_push(s: AgentStateView, snapshot: AgentStateView, m: MessageView)
    requires
        snapshot == s,
    ensures
        pushed(s, m).messages == snapshot.messages.push(m),
        pushed(s, m).messages.drop_last() == snapshot.messages,
        pushed(s, m) == (AgentStateView { messages: pushed(s, m).messages, ..snapshot }),
{
    assert(s.messages.push(m).drop_last() =~= s.messages);
}

/// An agent that has done nothing knows nothing and thinks at medium level; a push adds one
/// message behind the others and touches nothing else.
pub proof fn state_starts_empty(s: AgentStateView, m: MessageView)
    ensures
        initial_state().messages.len() == 0,
        initial_state().model is None,
        initial_state().thinking_level == ThinkingLevel::Medium,
        initial_state().system_prompt.len() == 0,
        pushed(s, m).messages.len() == s.messages.len() + 1,
        pushed(s, m).messages.last() == m,
        pushed(s, m).model == s.model,
        pushed(s, m).thinking_level == s.thinking_level,
        pushed(s, m).system_prompt == s.system_prompt,
{
}

} // verus!
