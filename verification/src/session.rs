//! A session: the journal, the hooks and the configuration around agent runs.
//!
//! One prompt goes through `begin_prompt`, the agent loop, `finish_prompt` and `settle`.
//! Events collect in `events` until the caller takes them.

use crate::agent_loop;
use crate::agent_loop::{
    AnswerView, CallView, ConfigView, LoopConfig, LoopResult, LoopResultView, LoopStepView, Stamp,
};
use crate::builtins;
use crate::bus;
use crate::bus::{Event, HookAction, Hooks};
use crate::compaction::CompactionSettings;
use crate::context::{ContextBuffer, TokenBudget};
use crate::entry::{Entry, EntryView};
use crate::error::{CoreError, CoreErrorView, SessionError, SessionErrorView};
use crate::journal;
use crate::journal::{Journal, JournalView};
use crate::json::Json;
use crate::messages;
use crate::messages::{
    BlockView, ContentBlock, ContentView, Message, MessageContent, MessageView, Role,
};
use crate::model;
use crate::model::{Model, ModelView, ThinkingLevel};
use crate::provider::{ChatProvider, Provider};
use crate::request;
use crate::request::{ToolSpec, ToolSpecView};
use crate::state;
use crate::state::{AgentState, AgentStateView};
use crate::text;
use crate::tools;
use crate::tools::{Tool, ToolArgs, ToolArgsView, ToolRegistry};
use vstd::prelude::*;
use vstd::string::*;

verus! {

/// Where a session stands.
#[derive(Debug, Clone, Copy, PartialEq, Eq, Structural)]
pub enum Phase {
    Idle,
    Streaming,
    RunningTools,
    Compacting,
    Retrying,
}

/// A session.
pub struct AgentSession<H, I> {
    pub journal: Journal,
    pub state: AgentState,
    /// events that subscribers have not been told yet
    pub events: Vec<Event>,
    pub hooks: Hooks<H, I>,
    pub tokens: TokenBudget,
    pub context: ContextBuffer,
    /// messages queued for the running agent
    pub steering: Vec<String>,
    /// messages queued for when the agent has settled
    pub follow_up: Vec<String>,
    pub compaction_settings: CompactionSettings,
    pub phase: Phase,
    pub provider: Option<Provider>,
    pub tool_registry: ToolRegistry,
    pub model: Option<Model>,
    pub system_prompt: String,
}

/// The messages among the entries, in order.
pub open spec fn entry_messages(s: Seq<EntryView>) -> Seq<MessageView>
    decreases s.len(),
{
    if s.len() == 0 {
        Seq::empty()
    } else {
        let rest = entry_messages(s.drop_last());
        match s.last() {
            EntryView::Message { message, .. } => rest.push(message),
            _ => rest,
        }
    }
}

/// A tool as a session offers it: any arguments are allowed.
pub open spec fn offered_tool(desc: Seq<char>) -> ToolSpecView {
    ToolSpecView {
        name: builtins::described_name(desc),
        description: builtins::described_purpose(desc),
        input_schema: builtins::any_schema(),
    }
}

/// The journal entry of a message.
pub open spec fn message_entry(
    m: MessageView,
    parent: Option<Seq<char>>,
    timestamp: Seq<char>,
) -> EntryView {
    EntryView::Message { id: m.id, parent_id: parent, timestamp, message: m }
}

/// The journal after a message was added below the current entry.
pub open spec fn with_message(j: JournalView, m: MessageView, timestamp: Seq<char>) -> JournalView {
    journal::appended(j, message_entry(m, j.leaf, timestamp))
}

/// The journal after the assistant messages among `s` were added, in order.
pub open spec fn with_answers(j: JournalView, s: Seq<MessageView>, timestamp: Seq<char>) -> JournalView
    decreases s.len(),
{
    if s.len() == 0 {
        j
    } else {
        let rest = with_answers(j, s.drop_last(), timestamp);
        if s.last().role == Role::Assistant {
            with_message(rest, s.last(), timestamp)
        } else {
            rest
        }
    }
}

/// The text blocks, one after the other.
pub open spec fn blocks_said(s: Seq<BlockView>) -> Seq<char>
    decreases s.len(),
{
    if s.len() == 0 {
        Seq::empty()
    } else {
        let rest = blocks_said(s.drop_last());
        match s.last() {
            BlockView::Text(t) => rest + t,
            _ => rest,
        }
    }
}

/// What the assistant said in the messages, one after the other.
pub open spec fn answers_said(s: Seq<MessageView>) -> Seq<char>
    decreases s.len(),
{
    if s.len() == 0 {
        Seq::empty()
    } else {
        let rest = answers_said(s.drop_last());
        match s.last().content {
            ContentView::Assistant(blocks) => if s.last().role == Role::Assistant {
                rest + blocks_said(blocks)
            } else {
                rest
            },
            _ => rest,
        }
    }
}

/// What a prompt begins with.
pub enum PromptStep {
    /// The prompt fails.
    Failed(SessionError),
    /// A hook keeps the agent from starting; the answer is empty.
    Skipped,
    /// Run the agent loop.
    Run(LoopConfig),
}

/// What a session asks of the agent loop, but for the tools.
pub open spec fn asked(
    c: ConfigView,
    model: ModelView,
    system: Seq<char>,
    conversation: Seq<MessageView>,
    thinking: ThinkingLevel,
) -> bool {
    &&& c.model == model
    &&& c.system == system
    &&& c.messages == conversation
    &&& c.max_tokens == model.max_tokens
    &&& c.thinking == thinking
    &&& c.max_turns == 10
}

/// Whether `c` offers the tools of a registry, in whatever order.
pub open spec fn offers(c: Seq<ToolSpecView>, registry: Map<Seq<char>, Seq<char>>) -> bool {
    exists|s: Seq<(Seq<char>, Seq<char>)>| #[trigger]
        tools::lists(s, registry) && c == s.map_values(
            |p: (Seq<char>, Seq<char>)| offered_tool(p.1),
        )
}

/// The error of a prompt without a model to ask: it says whether the provider is missing, or only
/// the model.
pub open spec fn nothing_to_ask(has_provider: bool) -> SessionErrorView {
    SessionErrorView::Core(
        CoreErrorView::Tool(
            if has_provider {
                "未配置模型"@
            } else {
                "未配置服务商"@
            },
        ),
    )
}

/// The index that turn events carry: the number of entries, cut to 32 bits.
pub open spec fn turn_index(entries: Seq<EntryView>) -> u32 {
    (entries.len() as usize) as u32
}

impl<H: Fn(&Event) -> HookAction, I: Fn(&str, &Json) -> Option<Json>> AgentSession<H, I> {
    /// Opens a session over a journal.
    pub fn open(journal: Journal) -> (r: Self)
        ensures
            r.journal@ == journal@,
            r.journal.wf() == journal.wf(),
            r.state@ == state::initial_state(),
            r.events@ == Seq::<Event>::empty(),
            r.hooks@.handlers == Seq::<(Seq<char>, H)>::empty(),
            r.hooks@.interceptors == Seq::<I>::empty(),
            r.hooks.callable(),
            r.tokens@ == crate::context::no_budget(),
            r.context.generation == 0,
            r.steering@ == Seq::<String>::empty(),
            r.follow_up@ == Seq::<String>::empty(),
            r.compaction_settings == (CompactionSettings {
                enabled: true,
                reserve_tokens: 16_384,
                keep_recent_tokens: 20_000,
                serialize_tool_result_max_chars: 2_000,
            }),
            r.phase == Phase::Idle,
            r.provider is None,
            r.tool_registry@ == tools::no_pairs(),
            r.model is None,
            r.system_prompt@ == Seq::<char>::empty(),
    {
        AgentSession {
            journal,
            state: AgentState::new(),
            events: Vec::new(),
            hooks: Hooks::new(),
            tokens: TokenBudget::default(),
            context: ContextBuffer::new(),
            steering: Vec::new(),
            follow_up: Vec::new(),
            compaction_settings: CompactionSettings::default(),
            phase: Phase::Idle,
            provider: None,
            tool_registry: ToolRegistry::default(),
            model: None,
            system_prompt: String::new(),
        }
    }

    /// Sets the provider.
    pub fn set_provider(&mut self, provider: Provider)
        ensures
            *final(self) == (AgentSession { provider: Some(provider), ..*old(self) }),
    {
        self.provider = Some(provider);
    }

    /// Sets the model.
    pub fn set_model(&mut self, model: Model)
        ensures
            *final(self) == (AgentSession { model: Some(model), ..*old(self) }),
    {
        self.model = Some(model);
    }

    /// Sets the system prompt.
    pub fn set_system_prompt(&mut self, prompt: String)
        ensures
            *final(self) == (AgentSession { system_prompt: prompt, ..*old(self) }),
    {
        self.system_prompt = prompt;
    }

    /// Registers a tool.
    pub fn register_tool<T: Tool>(&mut self, tool: &T)
        ensures
            final(self).tool_registry@ == old(self).tool_registry@.insert(
                tool.tool_name(),
                tool.tool_description(),
            ),
            *final(self) == (AgentSession {
                tool_registry: final(self).tool_registry,
                ..*old(self)
            }),
    {
        self.tool_registry.register(tool);
    }

    /// Begins the next generation of the context.
    pub fn invalidate_context(&mut self)
        requires
            old(self).context.generation < u64::MAX,
        ensures
            final(self).context.generation == old(self).context.generation + 1,
            *final(self) == (AgentSession { context: final(self).context, ..*old(self) }),
    {
        self.context.invalidate();
    }

    /// Tells subscribers how long the queues are.
    pub fn publish_queues(&mut self, steering_len: usize, follow_up_len: usize)
        ensures
            final(self).events@ == old(self).events@.push(
                Event::QueueUpdate { steering: steering_len, follow_up: follow_up_len },
            ),
            *final(self) == (AgentSession { events: final(self).events, ..*old(self) }),
    {
        self.events.push(Event::QueueUpdate { steering: steering_len, follow_up: follow_up_len });
    }

    /// Hands over the events that subscribers have not been told yet.
    pub fn take_events(&mut self) -> (r: Vec<Event>)
        ensures
            r@ == old(self).events@,
            final(self).events@ == Seq::<Event>::empty(),
            *final(self) == (AgentSession { events: final(self).events, ..*old(self) }),
    {
        let mut out: Vec<Event> = Vec::new();
        std::mem::swap(&mut out, &mut self.events);
        out
    }

    fn conversation(&self) -> (r: Vec<Message>)
        ensures
            messages::views(r@) == entry_messages(self.journal@.entries),
    {
        let list = self.journal.entries();
        let ghost s = self.journal@.entries;
        let mut out: Vec<Message> = Vec::new();
        let mut i: usize = 0;
        assert(s.take(0) =~= Seq::<EntryView>::empty());
        assert(messages::views(out@) =~= Seq::<MessageView>::empty());
        while i < list.len()
            invariant
                i <= list@.len(),
                s == journal::entry_views(list@),
                messages::views(out@) == entry_messages(s.take(i as int)),
            decreases list@.len() - i,
        {
            proof {
                assert(s.take(i + 1).drop_last() =~= s.take(i as int));
                assert(s.take(i + 1).last() == list@[i as int]@);
            }
            if let Entry::Message { message, .. } = &list[i] {
                let m = message.clone();
                let ghost before = out@;
                out.push(m);
                assert(messages::views(out@) =~= messages::views(before).push(m@));
            }
            i += 1;
        }
        assert(s.take(s.len() as int) =~= s);
        out
    }

    fn offered_tools(&self) -> (r: Vec<ToolSpec>)
        ensures
            offers(request::tool_views(r@), self.tool_registry@),
    {
        let descs = self.tool_registry.describe_all();
        let ghost s = choose|s: Seq<(Seq<char>, Seq<char>)>| #[trigger]
            tools::lists(s, self.tool_registry@) && text::strs(descs@) == s.map_values(
                |p: (Seq<char>, Seq<char>)| p.1,
            );
        let mut out: Vec<ToolSpec> = Vec::new();
        let mut i: usize = 0;
        while i < descs.len()
            invariant
                i <= descs@.len(),
                out@.len() == i,
                forall|k: int| 0 <= k < i ==> (#[trigger] out@[k])@ == offered_tool(descs@[k]@),
            decreases descs@.len() - i,
        {
            let (name, description) = builtins::split_description(descs[i].as_str());
            out.push(ToolSpec { name, description, input_schema: builtins::empty_schema() });
            i += 1;
        }
        proof {
            assert(text::strs(descs@).len() == s.len());
            assert forall|k: int| 0 <= k < s.len() implies descs@[k]@ == (#[trigger] s[k]).1 by {
                assert(text::strs(descs@)[k] == descs@[k]@);
            }
            assert(request::tool_views(out@) =~= s.map_values(
                |p: (Seq<char>, Seq<char>)| offered_tool(p.1),
            ));
        }
        out
    }

    /// Begins a prompt: notes the user's message in the journal, then says whether to run the
    /// agent and on what. `stamp` identifies the message, `iso` is the time of its entry.
    pub fn begin_prompt(&mut self, prompt: String, stamp: Stamp, iso: String) -> (r: PromptStep)
        requires
            old(self).journal.wf(),
            old(self).hooks.callable(),
        ensures
            final(self).journal.wf(),
            final(self).journal@ == with_message(
                old(self).journal@,
                messages::user_message(stamp.id@, prompt@, stamp.timestamp),
                iso@,
            ),
            ({
                let start = Event::TurnStart {
                    index: turn_index(final(self).journal@.entries),
                };
                match r {
                    PromptStep::Failed(e) => {
                        &&& e@ == nothing_to_ask(old(self).provider is Some)
                        &&& old(self).provider is None || old(self).model is None
                        &&& final(self).events@ == old(self).events@.push(start)
                        &&& final(self).phase == old(self).phase
                    },
                    PromptStep::Skipped => {
                        &&& old(self).provider is Some && old(self).model is Some
                        &&& exists|a: HookAction|
                            a != HookAction::Continue && #[trigger] bus::outcome(
                                bus::handlers_for(old(self).hooks@.handlers, "agent_start"@),
                                Event::AgentStart,
                                a,
                            )
                        &&& final(self).events@ == old(self).events@.push(start)
                        &&& final(self).phase == old(self).phase
                    },
                    PromptStep::Run(c) => {
                        &&& old(self).provider is Some && old(self).model is Some
                        &&& bus::outcome(
                            bus::handlers_for(old(self).hooks@.handlers, "agent_start"@),
                            Event::AgentStart,
                            HookAction::Continue,
                        )
                        &&& final(self).events@ == old(self).events@.push(start).push(
                            Event::AgentStart,
                        )
                        &&& final(self).phase == Phase::Streaming
                        &&& asked(
                            c@,
                            old(self).model->Some_0@,
                            old(self).system_prompt@,
                            entry_messages(final(self).journal@.entries),
                            old(self).state@.thinking_level,
                        )
                        &&& offers(c@.tools, old(self).tool_registry@)
                    },
                }
            }),
            *final(self) == (AgentSession {
                journal: final(self).journal,
                events: final(self).events,
                phase: final(self).phase,
                ..*old(self)
            }),
    {
        let m = Message::user(stamp.id.clone(), prompt, stamp.timestamp);
        let e = Entry::Message {
            id: stamp.id,
            parent_id: self.journal.leaf_id(),
            timestamp: iso,
            message: m,
        };
        self.journal.append(e);
        self.events.push(Event::TurnStart { index: self.journal.len() as u32 });
        if self.provider.is_none() {
            return PromptStep::Failed(
                SessionError::Core(CoreError::Tool("未配置服务商".to_owned())),
            );
        }
        let model = match &self.model {
            Some(m) => m.clone(),
            None => {
                return PromptStep::Failed(
                    SessionError::Core(CoreError::Tool("未配置模型".to_owned())),
                );
            },
        };
        let list = self.conversation();
        let specs = self.offered_tools();
        let action = self.hooks.run_handlers(&Event::AgentStart);
        if action != HookAction::Continue {
            return PromptStep::Skipped;
        }
        self.events.push(Event::AgentStart);
        self.phase = Phase::Streaming;
        let max_tokens = model.max_tokens;
        PromptStep::Run(
            LoopConfig {
                model,
                system: self.system_prompt.clone(),
                messages: list,
                tools: specs,
                max_tokens,
                thinking: self.state.thinking_level,
                max_turns: 10,
            },
        )
    }

    /// Takes in what the agent loop made of a prompt: the assistant's messages go to the
    /// journal, the usage to the budget, the prompt to the state. Returns what the assistant
    /// said. `stamp` identifies the prompt in the state, `iso` is the time of the entries.
    pub fn finish_prompt(
        &mut self,
        prompt: String,
        result: LoopResult,
        stamp: Stamp,
        iso: &str,
    ) -> (r: String)
        requires
            old(self).journal.wf(),
        ensures
            final(self).journal.wf(),
            final(self).journal@ == with_answers(old(self).journal@, result@.messages, iso@),
            r@ == answers_said(result@.messages),
            final(self).tokens@.last_usage == Some(result.usage),
            final(self).tokens@.estimates == old(self).tokens@.estimates,
            final(self).state@ == (AgentStateView {
                messages: old(self).state@.messages.push(
                    messages::user_message(stamp.id@, prompt@, stamp.timestamp),
                ),
                ..old(self).state@
            }),
            *final(self) == (AgentSession {
                journal: final(self).journal,
                tokens: final(self).tokens,
                state: final(self).state,
                ..*old(self)
            }),
    {
        let ghost start = self.journal@;
        let ghost s = messages::views(result.messages@);
        let mut said = String::new();
        let mut i: usize = 0;
        assert(s.take(0) =~= Seq::<MessageView>::empty());
        assert(said@ =~= Seq::<char>::empty());
        while i < result.messages.len()
            invariant
                i <= result.messages@.len(),
                s == messages::views(result.messages@),
                self.journal.wf(),
                self.journal@ == with_answers(start, s.take(i as int), iso@),
                said@ == answers_said(s.take(i as int)),
                *self == (AgentSession { journal: self.journal, ..*old(self) }),
            decreases result.messages@.len() - i,
        {
            proof {
                assert(s.take(i + 1).drop_last() =~= s.take(i as int));
                assert(s.take(i + 1).last() == result.messages@[i as int]@);
            }
            let m = &result.messages[i];
            if m.role == Role::Assistant {
                if let MessageContent::Assistant(blocks) = &m.content {
                    let t = text_of_blocks(blocks);
                    said.append(t.as_str());
                }
                let e = Entry::Message {
                    id: m.id.clone(),
                    parent_id: self.journal.leaf_id(),
                    timestamp: iso.to_owned(),
                    message: m.clone(),
                };
                self.journal.append(e);
            }
            i += 1;
        }
        assert(s.take(s.len() as int) =~= s);
        self.tokens.note_usage(result.usage);
        self.state.push_message(Message::user(stamp.id, prompt, stamp.timestamp));
        said
    }

    /// Ends a prompt whose journal was written: the handlers of `agent_settled` are run,
    /// whatever they answer, and subscribers are told.
    pub fn settle(&mut self)
        requires
            old(self).hooks.callable(),
        ensures
            final(self).events@ == old(self).events@.push(
                Event::TurnEnd { index: turn_index(old(self).journal@.entries) },
            ).push(Event::AgentSettled),
            exists|a: HookAction| #[trigger]
                bus::outcome(
                    bus::handlers_for(old(self).hooks@.handlers, "agent_settled"@),
                    Event::AgentSettled,
                    a,
                ),
            final(self).phase == Phase::Idle,
            *final(self) == (AgentSession {
                events: final(self).events,
                phase: final(self).phase,
                ..*old(self)
            }),
    {
        self.events.push(Event::TurnEnd { index: self.journal.len() as u32 });
        self.hooks.run_handlers(&Event::AgentSettled);
        self.events.push(Event::AgentSettled);
        self.phase = Phase::Idle;
    }

    /// Runs the handlers of an event.
    pub fn run_hooks(&self, ev: &Event) -> (r: HookAction)
        requires
            self.hooks.callable(),
        ensures
            bus::outcome(bus::handlers_for(self.hooks@.handlers, bus::event_name(*ev)), *ev, r),
    {
        self.hooks.run_handlers(ev)
    }

    /// Whether tool calls have to go through interceptors.
    pub fn has_tool_hooks(&self) -> (r: bool)
        ensures
            r == (self.hooks@.interceptors.len() > 0),
    {
        self.hooks.has_tool_hooks()
    }

    /// Passes a tool call through the interceptors: the call to run, or the error that it
    /// was blocked.
    pub fn intercept(&self, call: ToolArgs) -> (r: Result<ToolArgs, CoreError>)
        requires
            self.hooks.callable(),
        ensures
            exists|name: &str, start: Json, o: Option<Json>|
                name@ == call@.name && start@ == call@.arguments && #[trigger] bus::interception(
                    self.hooks@.interceptors,
                    name,
                    start,
                    o,
                ) && call_result(r) == intercepted(call@, o),
    {
        let name = call.name.as_str();
        let o = self.hooks.run_tool_interceptors(name, &call.arguments);
        match o {
            Some(arguments) => Ok(
                ToolArgs { call_id: call.call_id, name: call.name, arguments },
            ),
            None => {
                let mut m = text::cat("工具 '", call.name.as_str());
                m.append("' 被钩子拦截");
                Err(CoreError::Tool(m))
            },
        }
    }

    /// Readies a tool call: an error where no tool goes by its name, else what the interceptors
    /// make of it.
    pub fn prepare_call(&self, call: ToolArgs) -> (r: Result<ToolArgs, CoreError>)
        requires
            self.hooks.callable(),
        ensures
            !self.tool_registry@.contains_key(call@.name) ==> call_result(r) == Err::<
                ToolArgsView,
                CoreErrorView,
            >(tools::unknown_tool(call@.name)),
            self.tool_registry@.contains_key(call@.name) ==> exists|
                name: &str,
                start: Json,
                o: Option<Json>,
            |
                name@ == call@.name && start@ == call@.arguments && #[trigger] bus::interception(
                    self.hooks@.interceptors,
                    name,
                    start,
                    o,
                ) && call_result(r) == intercepted(call@, o),
    {
        match self.tool_registry.preflight(&call) {
            Ok(_) => self.intercept(call),
            Err(e) => Err(e),
        }
    }
}

/// The view of a call or an error.
pub open spec fn call_result(r: Result<ToolArgs, CoreError>) -> Result<ToolArgsView, CoreErrorView> {
    match r {
        Ok(c) => Ok(c@),
        Err(e) => Err(e@),
    }
}

/// What becomes of a call: it runs with the arguments that the interceptors gave, or fails
/// where they gave none.
pub open spec fn intercepted(call: ToolArgsView, o: Option<Json>) -> Result<
    ToolArgsView,
    CoreErrorView,
> {
    match o {
        Some(a) => Ok(ToolArgsView { arguments: a@, ..call }),
        None => Err(CoreErrorView::Tool("工具 '"@ + call.name + "' 被钩子拦截"@)),
    }
}

fn text_of_blocks(blocks: &Vec<ContentBlock>) -> (r: String)
    ensures
        r@ == blocks_said(messages::block_views(blocks@)),
{
    let ghost s = messages::block_views(blocks@);
    let mut out = String::new();
    let mut i: usize = 0;
    assert(s.take(0) =~= Seq::<BlockView>::empty());
    assert(out@ =~= Seq::<char>::empty());
    while i < blocks.len()
        invariant
            i <= blocks@.len(),
            s == messages::block_views(blocks@),
            out@ == blocks_said(s.take(i as int)),
        decreases blocks@.len() - i,
    {
        proof {
            assert(s.take(i + 1).drop_last() =~= s.take(i as int));
            assert(s.take(i + 1).last() == blocks@[i as int]@);
        }
        if let ContentBlock::Text(t) = &blocks[i] {
            out.append(t.as_str());
        }
        i += 1;
    }
    assert(s.take(s.len() as int) =~= s);
    out
}

// ---- laws -----------------------------------------------------------------------------------------

/// The assistant messages, in order.
pub open spec fn answers(s: Seq<MessageView>) -> Seq<MessageView>
    decreases s.len(),
{
    if s.len() == 0 {
        Seq::empty()
    } else {
        let rest = answers(s.drop_last());
        if s.last().role == Role::Assistant {
            rest.push(s.last())
        } else {
            rest
        }
    }
}

/// A message added to the journal is the last of the conversation; those before it stay.
pub proof fn message_is_recorded(j: JournalView, m: MessageView, timestamp: Seq<char>)
    ensures
        entry_messages(with_message(j, m, timestamp).entries) == entry_messages(j.entries).push(m),
        with_message(j, m, timestamp).leaf == Some(m.id),
{
    let e = message_entry(m, j.leaf, timestamp);
    assert(j.entries.push(e).drop_last() =~= j.entries);
}

/// The conversation after a prompt is the one before it followed by the assistant's new
/// messages, in order: the next request begins with all that was sent before.
pub proof fn answers_are_recorded(j: JournalView, s: Seq<MessageView>, timestamp: Seq<char>)
    ensures
        entry_messages(with_answers(j, s, timestamp).entries) == entry_messages(j.entries)
            + answers(s),
    decreases s.len(),
{
    if s.len() == 0 {
        assert(entry_messages(j.entries) + answers(s) =~= entry_messages(j.entries));
    } else {
        answers_are_recorded(j, s.drop_last(), timestamp);
        let rest = with_answers(j, s.drop_last(), timestamp);
        if s.last().role == Role::Assistant {
            message_is_recorded(rest, s.last(), timestamp);
            assert(entry_messages(j.entries) + answers(s) =~= (entry_messages(j.entries) + answers(
                s.drop_last(),
            )).push(s.last()));
        }
    }
}

/// A prompt that ran to its end, as the journal records it: the user's message, the messages
/// that the agent loop made of it, and the times of their entries.
pub struct PromptRecord {
    pub user: MessageView,
    pub asked_at: Seq<char>,
    pub made: Seq<MessageView>,
    pub answered_at: Seq<char>,
}

/// The journal after a prompt.
pub open spec fn recorded(j: JournalView, p: PromptRecord) -> JournalView {
    with_answers(with_message(j, p.user, p.asked_at), p.made, p.answered_at)
}

/// The journal after a list of prompts.
pub open spec fn all_recorded(j: JournalView, ps: Seq<PromptRecord>) -> JournalView
    decreases ps.len(),
{
    if ps.len() == 0 {
        j
    } else {
        recorded(all_recorded(j, ps.drop_last()), ps.last())
    }
}

/// The messages that a prompt adds to the conversation.
pub open spec fn added(p: PromptRecord) -> Seq<MessageView> {
    seq![p.user] + answers(p.made)
}

/// The messages that a list of prompts adds to the conversation.
pub open spec fn all_added(ps: Seq<PromptRecord>) -> Seq<MessageView>
    decreases ps.len(),
{
    if ps.len() == 0 {
        Seq::empty()
    } else {
        all_added(ps.drop_last()) + added(ps.last())
    }
}

/// Whether `e` is the entry of message `m` below the last of `before`.
pub open spec fn follows(e: EntryView, m: MessageView, before: Seq<EntryView>) -> bool {
    e matches EntryView::Message { id, parent_id, message, .. } && id == m.id && message == m
        && parent_id == journal::tip(before)
}

/// Whether `after` is `before` with one entry for each message, each below the one before it,
/// the current entry being the last.
pub open spec fn chained(before: JournalView, after: JournalView, list: Seq<MessageView>) -> bool {
    &&& after.entries.len() == before.entries.len() + list.len()
    &&& after.entries.take(before.entries.len() as int) == before.entries
    &&& after.leaf == journal::tip(after.entries)
    &&& forall|i: int|
        0 <= i < list.len() ==> follows(
            after.entries[before.entries.len() + i],
            #[trigger] list[i],
            after.entries.take(before.entries.len() + i),
        )
}

proof fn lemma_chain_starts(j: JournalView)
    requires
        j.leaf == journal::tip(j.entries),
    ensures
        chained(j, j, Seq::empty()),
{
    assert(j.entries.take(j.entries.len() as int) =~= j.entries);
}

proof fn lemma_chain_grows(
    before: JournalView,
    after: JournalView,
    list: Seq<MessageView>,
    m: MessageView,
    timestamp: Seq<char>,
)
    requires
        chained(before, after, list),
    ensures
        chained(before, with_message(after, m, timestamp), list.push(m)),
{
    let next = with_message(after, m, timestamp);
    let n = before.entries.len();
    assert(next.entries.take(n as int) =~= after.entries.take(n as int));
    assert forall|i: int| 0 <= i < list.push(m).len() implies follows(
        next.entries[n + i],
        #[trigger] list.push(m)[i],
        next.entries.take(n + i),
    ) by {
        assert(next.entries.take(n + i) =~= after.entries.take(n + i));
        if i < list.len() {
            assert(list.push(m)[i] == list[i]);
            assert(next.entries[n + i] == after.entries[n + i]);
        } else {
            assert(after.entries.take(n + i) =~= after.entries);
        }
    }
}

proof fn lemma_answers_chain(
    before: JournalView,
    after: JournalView,
    list: Seq<MessageView>,
    s: Seq<MessageView>,
    timestamp: Seq<char>,
)
    requires
        chained(before, after, list),
    ensures
        chained(before, with_answers(after, s, timestamp), list + answers(s)),
    decreases s.len(),
{
    if s.len() == 0 {
        assert(list + answers(s) =~= list);
    } else {
        lemma_answers_chain(before, after, list, s.drop_last(), timestamp);
        if s.last().role == Role::Assistant {
            lemma_chain_grows(
                before,
                with_answers(after, s.drop_last(), timestamp),
                list + answers(s.drop_last()),
                s.last(),
                timestamp,
            );
            assert(list + answers(s) =~= (list + answers(s.drop_last())).push(s.last()));
        }
    }
}

/// Over any number of prompts the journal only grows: each prompt adds the user's message and
/// the assistant's, in order, each entry below the one before it, and nothing else.
pub proof fn prompts_extend_the_journal(j: JournalView, ps: Seq<PromptRecord>)
    requires
        j.leaf == journal::tip(j.entries),
    ensures
        chained(j, all_recorded(j, ps), all_added(ps)),
    decreases ps.len(),
{
    if ps.len() == 0 {
        lemma_chain_starts(j);
    } else {
        prompts_extend_the_journal(j, ps.drop_last());
        let p = ps.last();
        let mid = all_recorded(j, ps.drop_last());
        let list = all_added(ps.drop_last());
        lemma_chain_grows(j, mid, list, p.user, p.asked_at);
        lemma_answers_chain(
            j,
            with_message(mid, p.user, p.asked_at),
            list.push(p.user),
            p.made,
            p.answered_at,
        );
        assert(all_added(ps) =~= list.push(p.user) + answers(p.made));
    }
}

/// The ids of entries, in order.
pub open spec fn entry_ids(s: Seq<EntryView>) -> Seq<Option<Seq<char>>> {
    s.map_values(|e: EntryView| crate::entry::entry_id(e))
}

/// The ids of messages, in order.
pub open spec fn message_ids(s: Seq<MessageView>) -> Seq<Option<Seq<char>>> {
    s.map_values(|m: MessageView| Some(m.id))
}

/// Over any number of prompts the ids in the journal stay distinct, where those of the new
/// messages are and are new.
pub proof fn prompts_keep_ids_distinct(j: JournalView, ps: Seq<PromptRecord>)
    requires
        j.leaf == journal::tip(j.entries),
        (entry_ids(j.entries) + message_ids(all_added(ps))).no_duplicates(),
    ensures
        entry_ids(all_recorded(j, ps).entries).no_duplicates(),
{
    prompts_extend_the_journal(j, ps);
    let list = all_added(ps);
    let n = j.entries.len();
    let after = all_recorded(j, ps).entries;
    let want = entry_ids(j.entries) + message_ids(list);
    assert forall|i: int| 0 <= i < after.len() implies entry_ids(after)[i] == want[i] by {
        if i < n {
            assert(after.take(n as int)[i] == after[i]);
        } else {
            assert(follows(after[n + (i - n)], list[i - n], after.take(n + (i - n))));
        }
    }
    assert(entry_ids(after) =~= want);
}

/// Prompts that are each answered by one message add two entries each: the user's message
/// and the answer.
pub proof fn plain_prompts_alternate(j: JournalView, ps: Seq<PromptRecord>)
    requires
        j.leaf == journal::tip(j.entries),
        forall|k: int|
            0 <= k < ps.len() ==> (#[trigger] ps[k]).made.len() == 1 && ps[k].made[0].role
                == Role::Assistant,
    ensures
        all_recorded(j, ps).entries.len() == j.entries.len() + 2 * ps.len(),
        forall|k: int|
            0 <= k < ps.len() ==> follows(
                all_recorded(j, ps).entries[j.entries.len() + 2 * k],
                (#[trigger] ps[k]).user,
                all_recorded(j, ps).entries.take(j.entries.len() + 2 * k),
            ) && follows(
                all_recorded(j, ps).entries[j.entries.len() + 2 * k + 1],
                ps[k].made[0],
                all_recorded(j, ps).entries.take(j.entries.len() + 2 * k + 1),
            ),
{
    prompts_extend_the_journal(j, ps);
    lemma_alternate(ps);
    let list = all_added(ps);
    let n = j.entries.len() as int;
    let after = all_recorded(j, ps).entries;
    assert forall|k: int| 0 <= k < ps.len() implies follows(
        after[n + 2 * k],
        (#[trigger] ps[k]).user,
        after.take(n + 2 * k),
    ) && follows(after[n + 2 * k + 1], ps[k].made[0], after.take(n + 2 * k + 1)) by {
        assert(list[2 * k] == ps[k].user);
        assert(list[2 * k + 1] == ps[k].made[0]);
        assert(n + (2 * k + 1) == n + 2 * k + 1);
    }
}

proof fn lemma_alternate(ps: Seq<PromptRecord>)
    requires
        forall|k: int|
            0 <= k < ps.len() ==> (#[trigger] ps[k]).made.len() == 1 && ps[k].made[0].role
                == Role::Assistant,
    ensures
        all_added(ps).len() == 2 * ps.len(),
        forall|k: int|
            0 <= k < ps.len() ==> all_added(ps)[2 * k] == (#[trigger] ps[k]).user && all_added(
                ps,
            )[2 * k + 1] == ps[k].made[0],
    decreases ps.len(),
{
    if ps.len() > 0 {
        let rest = ps.drop_last();
        let p = ps.last();
        assert(p == ps[ps.len() - 1]);
        assert forall|k: int| 0 <= k < rest.len() implies (#[trigger] rest[k]).made.len() == 1
            && rest[k].made[0].role == Role::Assistant by {
            assert(rest[k] == ps[k]);
        }
        lemma_alternate(rest);
        reveal_with_fuel(answers, 2);
        assert(answers(p.made) =~= p.made);
        assert forall|k: int| 0 <= k < ps.len() implies all_added(ps)[2 * k] == (
        #[trigger] ps[k]).user && all_added(ps)[2 * k + 1] == ps[k].made[0] by {
            if k < rest.len() {
                assert(rest[k] == ps[k]);
            }
        }
    }
}

/// A prompt whose first answer asks for no tools is over with that answer: the loop made one
/// message, and the prompt returns the answer's text.
pub proof fn plain_answer_is_returned(
    config: ConfigView,
    a: AnswerView,
    id: Seq<char>,
    timestamp: u64,
    provider: Seq<char>,
)
    requires
        config.max_turns > 0,
        !agent_loop::wants_tools(a),
    ensures
        ({
            let start = agent_loop::run_start(config);
            let run = agent_loop::begun(start, false);
            let m = agent_loop::answer_message(run, a, id, timestamp, provider);
            let end = agent_loop::answered(run, a, m);
            &&& agent_loop::begin_step(start, false) is Call
            &&& agent_loop::answered_step(end, a) == LoopStepView::Finished(
                LoopResultView {
                    messages: seq![m],
                    usage: model::usage_sum(model::no_usage(), a.usage),
                    stop_reason: a.stop,
                },
            )
            &&& m.role == Role::Assistant
            &&& answers_said(seq![m]) == a.text
        }),
{
    let run = agent_loop::begun(agent_loop::run_start(config), false);
    let m = agent_loop::answer_message(run, a, id, timestamp, provider);
    assert(run.fresh.push(m) =~= seq![m]);
    assert(seq![m].drop_last() =~= Seq::<MessageView>::empty());
    lemma_blocks_say_the_text(a);
    assert(answers_said(Seq::<MessageView>::empty()) =~= Seq::<char>::empty());
    assert(answers_said(seq![m]) =~= blocks_said(agent_loop::answer_blocks(a)));
}

proof fn lemma_calls_say_nothing(head: Seq<BlockView>, calls: Seq<BlockView>)
    requires
        forall|i: int| 0 <= i < calls.len() ==> #[trigger] calls[i] is ToolCall,
    ensures
        blocks_said(head + calls) == blocks_said(head),
    decreases calls.len(),
{
    if calls.len() == 0 {
        assert(head + calls =~= head);
    } else {
        assert((head + calls).drop_last() =~= head + calls.drop_last());
        assert((head + calls).last() == calls[calls.len() - 1]);
        lemma_calls_say_nothing(head, calls.drop_last());
    }
}

proof fn lemma_blocks_say_the_text(a: AnswerView)
    ensures
        blocks_said(agent_loop::answer_blocks(a)) == a.text,
{
    let thinking = if a.thinking.len() > 0 {
        seq![BlockView::Thinking(a.thinking)]
    } else {
        Seq::empty()
    };
    let said = if a.text.len() > 0 {
        seq![BlockView::Text(a.text)]
    } else {
        Seq::empty()
    };
    let calls = a.calls.map_values(
        |c: CallView| BlockView::ToolCall { id: c.id, name: c.name, arguments: c.args },
    );
    lemma_calls_say_nothing(thinking + said, calls);
    let head = thinking + said;
    assert(seq![BlockView::Thinking(a.thinking)].drop_last() =~= Seq::<BlockView>::empty());
    assert(blocks_said(Seq::<BlockView>::empty()) =~= Seq::<char>::empty());
    assert(blocks_said(thinking) =~= Seq::<char>::empty());
    if a.text.len() > 0 {
        assert(head.drop_last() =~= thinking);
        assert(blocks_said(head) =~= a.text);
    } else {
        assert(head =~= thinking);
        assert(a.text =~= Seq::<char>::empty());
    }
}

/// A message under an id that is new to the current branch makes the branch one entry
/// longer, with the new message at its tip.
pub proof fn message_extends_the_branch(j: JournalView, m: MessageView, timestamp: Seq<char>)
    requires
        journal::has_root(j.entries, j.leaf),
        !journal::root_path(j.entries, j.leaf).contains(m.id),
    ensures
        ({
            let after = with_message(j, m, timestamp);
            &&& journal::has_root(after.entries, after.leaf)
            &&& journal::root_path(after.entries, after.leaf) == seq![m.id]
                + journal::root_path(j.entries, j.leaf)
        }),
{
    journal::append_extends_the_path(j, message_entry(m, j.leaf, timestamp));
}

/// Every tool that is described as `name: what it does` is offered under the name it is
/// registered by, once, with what its description says of it: a call by an offered name finds
/// its tool.
pub proof fn tools_are_offered_by_name(
    c: Seq<ToolSpecView>,
    registry: Map<Seq<char>, Seq<char>>,
    name: Seq<char>,
    purpose: Seq<char>,
)
    requires
        builtins::well_described(registry),
        offers(c, registry),
    ensures
        forall|i: int| 0 <= i < c.len() ==> registry.contains_key((#[trigger] c[i]).name),
        forall|i: int, j: int|
            0 <= i < j < c.len() ==> (#[trigger] c[i]).name != (#[trigger] c[j]).name,
        forall|k: Seq<char>| #[trigger]
            registry.contains_key(k) ==> exists|i: int|
                0 <= i < c.len() && (#[trigger] c[i]).name == k,
        registry.contains_key(name) && registry[name] == name + ": "@ + purpose && (purpose.len() > 0
            ==> !text::white_space(purpose[0]) && !text::white_space(purpose.last())) ==> exists|
            i: int,
        |
            0 <= i < c.len() && #[trigger] c[i] == (ToolSpecView {
                name,
                description: purpose,
                input_schema: builtins::any_schema(),
            }),
{
    let s = choose|s: Seq<(Seq<char>, Seq<char>)>| #[trigger]
        tools::lists(s, registry) && c == s.map_values(
            |p: (Seq<char>, Seq<char>)| offered_tool(p.1),
        );
    assert forall|i: int| 0 <= i < s.len() implies (#[trigger] c[i]).name
        == builtins::described_name(s[i].1) by {
        assert(c[i] == offered_tool(s[i].1));
    }
    builtins::listed_names(c, s, registry);
    if registry.contains_key(name) && registry[name] == name + ": "@ + purpose && (purpose.len() > 0
        ==> !text::white_space(purpose[0]) && !text::white_space(purpose.last())) {
        builtins::lemma_spaced(name, purpose);
        let i = choose|i: int| 0 <= i < s.len() && (#[trigger] s[i]).0 == name;
        assert(c[i] == offered_tool(s[i].1));
    }
}

/// A session with the built-in tools offers exactly those three, under their names.
pub proof fn builtins_are_offered(c: Seq<ToolSpecView>)
    requires
        offers(c, builtins::with_builtins(tools::no_pairs())),
    ensures
        forall|i: int|
            0 <= i < c.len() ==> (#[trigger] c[i]).name == "bash"@ || c[i].name == "read_file"@
                || c[i].name == "write_file"@,
        exists|i: int| 0 <= i < c.len() && (#[trigger] c[i]).name == "bash"@,
        exists|i: int| 0 <= i < c.len() && (#[trigger] c[i]).name == "read_file"@,
        exists|i: int| 0 <= i < c.len() && (#[trigger] c[i]).name == "write_file"@,
{
    let m = tools::no_pairs();
    let registry = builtins::with_builtins(m);
    builtins::builtins_are_well_described(m, Seq::empty());
    tools_are_offered_by_name(c, registry, "bash"@, Seq::empty());
    assert forall|i: int| 0 <= i < c.len() implies (#[trigger] c[i]).name == "bash"@ || c[i].name
        == "read_file"@ || c[i].name == "write_file"@ by {
        builtins::builtins_are_well_described(m, c[i].name);
        assert(registry.contains_key(c[i].name));
    }
}

/// What the assistant says adds up over messages and blocks: texts of assistant messages count,
/// and nothing else does.
pub proof fn answers_add_up(
    a: Seq<MessageView>,
    m: MessageView,
    s: Seq<BlockView>,
    t: Seq<char>,
    b: BlockView,
)
    ensures
        m.role != Role::Assistant ==> answers_said(a.push(m)) == answers_said(a),
        !(m.content is Assistant) ==> answers_said(a.push(m)) == answers_said(a),
        m.role == Role::Assistant ==> (m.content matches ContentView::Assistant(blocks) ==>
            answers_said(a.push(m)) == answers_said(a) + blocks_said(blocks)),
        answers_said(Seq::empty()).len() == 0,
        blocks_said(s.push(BlockView::Text(t))) == blocks_said(s) + t,
        !(b is Text) ==> blocks_said(s.push(b)) == blocks_said(s),
        blocks_said(Seq::empty()).len() == 0,
{
    assert(a.push(m).drop_last() =~= a);
    assert(s.push(b).drop_last() =~= s);
    assert(s.push(BlockView::Text(t)).drop_last() =~= s);
}

/// The conversation of a session holds the messages of its entries, in order; entries of other
/// kinds add nothing to it.
pub proof fn conversation_is_what_was_recorded(s: Seq<EntryView>, e: EntryView)
    ensures
        e matches EntryView::Message { message, .. } ==> entry_messages(s.push(e))
            == entry_messages(s).push(message),
        !(e is Message) ==> entry_messages(s.push(e)) == entry_messages(s),
        entry_messages(Seq::empty()).len() == 0,
{
    assert(s.push(e).drop_last() =~= s);
}

/// An entry holds its message under the message's own id, below the current entry, at the time
/// it was made; only assistant messages are recorded as answers.
pub proof fn messages_are_recorded_as_they_are(
    j: JournalView,
    m: MessageView,
    timestamp: Seq<char>,
    s: Seq<MessageView>,
)
    ensures
        with_message(j, m, timestamp).entries == j.entries.push(
            EntryView::Message { id: m.id, parent_id: j.leaf, timestamp, message: m },
        ),
        with_answers(j, Seq::empty(), timestamp) == j,
        m.role == Role::Assistant ==> with_answers(j, s.push(m), timestamp).entries == with_answers(
            j,
            s,
            timestamp,
        ).entries.push(
            EntryView::Message {
                id: m.id,
                parent_id: with_answers(j, s, timestamp).leaf,
                timestamp,
                message: m,
            },
        ),
        m.role != Role::Assistant ==> with_answers(j, s.push(m), timestamp) == with_answers(
            j,
            s,
            timestamp,
        ),
{
    assert(s.push(m).drop_last() =~= s);
}

/// A call that interceptors let through keeps its id and name and runs with the arguments that
/// they gave; a blocked one fails with an error that names the tool.
pub proof fn interception_changes_arguments_only(call: ToolArgsView, a: Json)
    ensures
        intercepted(call, Some(a)) == Ok::<ToolArgsView, CoreErrorView>(
            ToolArgsView { call_id: call.call_id, name: call.name, arguments: a@ },
        ),
        intercepted(call, None) == Err::<ToolArgsView, CoreErrorView>(
            CoreErrorView::Tool("工具 '"@ + call.name + "' 被钩子拦截"@),
        ),
{
}

/// A session asks for what it is configured with: the loop's first request carries the
/// session's model, prompt and thinking level, as many output tokens as the model allows, and
/// the whole conversation; a run has ten turns.
pub proof fn sessions_ask_what_they_hold(
    c: ConfigView,
    model: ModelView,
    system: Seq<char>,
    conversation: Seq<MessageView>,
    thinking: ThinkingLevel,
)
    requires
        asked(c, model, system, conversation, thinking),
    ensures
        agent_loop::begin_step(agent_loop::run_start(c), false) matches LoopStepView::Call(req)
            && req.model == model && req.system == system && req.thinking == thinking
            && req.max_tokens == model.max_tokens && req.tools == c.tools && req.messages.len()
            >= conversation.len(),
        c.max_turns == 10,
{
}

/// Turns are numbered by the entries of the journal.
pub proof fn turns_count_entries(entries: Seq<EntryView>)
    requires
        entries.len() <= u32::MAX,
    ensures
        turn_index(entries) == entries.len(),
{
}

/// A prompt without a provider says that the provider is missing, one without a model that the
/// model is.
pub proof fn missing_configuration_is_named()
    ensures
        crate::error::session_message(nothing_to_ask(false)) == "核心错误: 工具错误: "@
            + "未配置服务商"@,
        crate::error::session_message(nothing_to_ask(true)) == "核心错误: 工具错误: "@
            + "未配置模型"@,
{
    crate::error::messages_carry_their_errors("未配置服务商"@, Seq::empty(), 0, 0, 0, 0);
    crate::error::messages_carry_their_errors("未配置模型"@, Seq::empty(), 0, 0, 0, 0);
}

} // verus!
