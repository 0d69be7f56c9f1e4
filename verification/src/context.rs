//! Token estimates and the generation of the live context.

use crate::compaction;
use crate::messages;
use crate::messages::{Message, MessageView};
use crate::model::Usage;
use vstd::hash_map::StringHashMap;
use vstd::prelude::*;

verus! {

/// Token estimates by message id, and the usage of the last answer.
pub struct TokenBudget {
    estimates: StringHashMap<u64>,
    last_usage: Option<Usage>,
}

/// What a `TokenBudget` holds.
pub struct BudgetView {
    pub estimates: Map<Seq<char>, u64>,
    pub last_usage: Option<Usage>,
}

impl View for TokenBudget {
    type V = BudgetView;

    closed spec fn view(&self) -> BudgetView {
        BudgetView { estimates: self.estimates@, last_usage: self.last_usage }
    }
}

/// The budget of a session without answers.
pub open spec fn no_budget() -> BudgetView {
    BudgetView { estimates: Map::empty(), last_usage: None }
}

/// The tokens that the last answer was charged for as input, and four characters a token of
/// what follows it.
pub open spec fn context_size(b: BudgetView, tail: Seq<MessageView>) -> nat {
    (match b.last_usage {
        Some(u) => u.input as nat,
        None => 0,
    }) + compaction::total_chars(tail) / 4
}

impl Default for TokenBudget {
    fn default() -> (r: Self)
        ensures
            r@ == no_budget(),
    {
        TokenBudget { estimates: StringHashMap::new(), last_usage: None }
    }
}

impl TokenBudget {
    /// The estimate for a message.
    pub fn estimate_of(&self, id: &str) -> (r: Option<u64>)
        ensures
            r == (if self@.estimates.contains_key(id@) {
                Some(self@.estimates[id@])
            } else {
                None
            }),
    {
        match self.estimates.get(id) {
            Some(n) => Some(*n),
            None => None,
        }
    }

    /// The size of the context: the input tokens of the last answer, 0 before any, and an
    /// estimate of the messages behind it.
    pub fn context_tokens(&self, tail: &Vec<Message>) -> (r: u64)
        requires
            compaction::total_chars(messages::views(tail@)) <= usize::MAX,
        ensures
            r == (if context_size(self@, messages::views(tail@)) <= u64::MAX {
                context_size(self@, messages::views(tail@))
            } else {
                u64::MAX as nat
            }),
    {
        let behind = compaction::estimate_tokens(tail);
        match &self.last_usage {
            Some(u) => u.input.saturating_add(behind),
            None => behind,
        }
    }

    /// Notes the usage of an answer.
    pub fn note_usage(&mut self, u: Usage)
        ensures
            final(self)@ == (BudgetView { last_usage: Some(u), ..old(self)@ }),
    {
        self.last_usage = Some(u);
    }
}

/// A rebuilt context, handed to the request builder.
pub struct ContextSnapshot {
    pub system_prompt: String,
    pub messages: Vec<Message>,
    /// increments on compaction and branch switch
    pub generation: u64,
}

/// The live context, by generation.
pub struct ContextBuffer {
    pub generation: u64,
}

impl ContextBuffer {
    /// The first generation.
    pub fn new() -> (r: Self)
        ensures
            r.generation == 0,
    {
        ContextBuffer { generation: 0 }
    }

    /// Begins the next generation.
    pub fn invalidate(&mut self)
        requires
            old(self).generation < u64::MAX,
        ensures
            final(self).generation == old(self).generation + 1,
    {
        self.generation += 1;
    }
}

impl Default for ContextBuffer {
    fn default() -> (r: Self)
        ensures
            r.generation == 0,
    {
        ContextBuffer::new()
    }
}

// ---- laws ---------------------------------------------------------------------------------------

/// The size of a context is what the last answer was charged for as input, and nothing before
/// any, and the estimate of the messages behind it: a message of four more characters is one
/// token more.
pub proof fn context_is_charged_and_estimated(
    u: Usage,
    estimates: Map<Seq<char>, u64>,
    tail: Seq<MessageView>,
)
    ensures
        ({
            let b = BudgetView { estimates, last_usage: Some(u) };
            let fresh = BudgetView { estimates, last_usage: None };
            &&& context_size(b, tail) == u.input + compaction::token_estimate(tail)
            &&& context_size(fresh, tail) == compaction::token_estimate(tail)
            &&& context_size(b, Seq::empty()) == u.input
            &&& context_size(fresh, Seq::empty()) == 0
        }),
        no_budget().last_usage is None,
        no_budget().estimates.dom().len() == 0,
{
    compaction::sizes_add_up(
        tail,
        arbitrary(),
        Seq::empty(),
        Seq::empty(),
        Seq::empty(),
        Seq::empty(),
        Seq::empty(),
        false,
    );
}

} // verus!
