//! Agent loop: streaming model call, tool execution, result feedback, next turn.
//!
//! The loop is a state machine. `AgentLoop::begin_turn` says what to ask the model,
//! `TurnStream` reads the answer, `AgentLoop::complete_turn` says whether the run is over or
//! which tools to run, and `AgentLoop::tool_results` takes what they gave.

use crate::error;
use crate::error::{AiError, AiErrorView, CoreError, CoreErrorView};
use crate::json;
use crate::messages;
use crate::messages::{
    BlockView, ContentBlock, ContentView, Message, MessageContent, MessageView, Role,
};
use crate::model;
use crate::model::{Model, ModelView, ThinkingLevel, Usage};
use crate::request;
use crate::request::{
    ChatMessage, ChatMessageView, Part, PartView, ProviderRequest, ProviderRequestView, ToolSpec,
    ToolSpecView,
};
use crate::stream;
use crate::stream::{StopReason, StreamEvent, StreamEventView, StreamReader};
use crate::text;
use crate::tools;
use crate::tools::{ToolArgs, ToolArgsView, ToolOutput, ToolOutputView};
use vstd::prelude::*;
use vstd::string::*;

verus! {

// ---- messages for the provider ----------------------------------------------------------------

/// A block as a request part.
pub open spec fn block_part(b: BlockView) -> PartView {
    match b {
        BlockView::Text(t) => PartView::Text { text: t },
        BlockView::Thinking(t) => PartView::Thinking { thinking: t },
        BlockView::ToolCall { id, name, arguments } => PartView::ToolCall { id, name, arguments },
    }
}

/// A message's content as request parts. An image is a placeholder text.
pub open spec fn content_parts(c: ContentView) -> Seq<PartView> {
    match c {
        ContentView::Text(t) => seq![PartView::Text { text: t }],
        ContentView::Assistant(blocks) => blocks.map_values(|b: BlockView| block_part(b)),
        ContentView::ToolResult { tool_call_id, content, is_error } => seq![
            PartView::ToolResult { tool_call_id, content, is_error },
        ],
        ContentView::Image { mime, data } => seq![
            PartView::Text { text: image_text(mime, data.len()) },
        ],
    }
}

/// The placeholder of an image.
pub open spec fn image_text(mime: Seq<char>, len: nat) -> Seq<char> {
    "[image: "@ + mime + ", "@ + text::decimal(len) + " bytes]"@
}

/// The role's word in a request.
pub open spec fn role_word(r: Role) -> Seq<char> {
    match r {
        Role::User => "user"@,
        Role::Assistant => "assistant"@,
        Role::ToolResult => "tool"@,
    }
}

/// A message as it is sent.
pub open spec fn sent_message(m: MessageView) -> ChatMessageView {
    ChatMessageView { role: role_word(m.role), parts: content_parts(m.content) }
}

/// A conversation as it is sent.
pub open spec fn sent_messages(s: Seq<MessageView>) -> Seq<ChatMessageView> {
    s.map_values(|m: MessageView| sent_message(m))
}

/// The placeholder of an image.
pub(crate) fn image_placeholder(mime: &str, len: usize) -> (r: String)
    ensures
        r@ == image_text(mime@, len as nat),
{
    let mut t = text::cat("[image: ", mime);
    t.append(", ");
    t.append(text::usize_text(len).as_str());
    t.append(" bytes]");
    t
}

fn part_of(b: &ContentBlock) -> (r: Part)
    ensures
        r@ == block_part(b@),
{
    match b {
        ContentBlock::Text(t) => Part::Text { text: t.clone() },
        ContentBlock::Thinking(t) => Part::Thinking { thinking: t.clone() },
        ContentBlock::ToolCall { id, name, arguments } => Part::ToolCall {
            id: id.clone(),
            name: name.clone(),
            arguments: arguments.clone(),
        },
    }
}

fn parts_of(c: &MessageContent) -> (r: Vec<Part>)
    ensures
        request::part_views(r@) == content_parts(c@),
{
    let mut parts: Vec<Part> = Vec::new();
    match c {
        MessageContent::Text(t) => {
            parts.push(Part::Text { text: t.clone() });
        },
        MessageContent::Assistant(blocks) => {
            let mut i: usize = 0;
            while i < blocks.len()
                invariant
                    i <= blocks@.len(),
                    parts@.len() == i,
                    forall|k: int|
                        0 <= k < i ==> (#[trigger] parts@[k])@ == block_part(blocks@[k]@),
                decreases blocks@.len() - i,
            {
                parts.push(part_of(&blocks[i]));
                i += 1;
            }
        },
        MessageContent::ToolResult { tool_call_id, content, is_error } => {
            parts.push(
                Part::ToolResult {
                    tool_call_id: tool_call_id.clone(),
                    content: content.clone(),
                    is_error: *is_error,
                },
            );
        },
        MessageContent::Image { mime, data } => {
            parts.push(Part::Text { text: image_placeholder(mime.as_str(), data.len()) });
        },
    }
    assert(request::part_views(parts@) =~= content_parts(c@));
    parts
}

fn role_name(r: Role) -> (w: String)
    ensures
        w@ == role_word(r),
{
    match r {
        Role::User => "user".to_owned(),
        Role::Assistant => "assistant".to_owned(),
        Role::ToolResult => "tool".to_owned(),
    }
}

fn push_sent(out: &mut Vec<ChatMessage>, list: &Vec<Message>)
    ensures
        request::message_views(final(out)@) == request::message_views(old(out)@) + sent_messages(
            messages::views(list@),
        ),
{
    let ghost start = request::message_views(out@);
    let ghost want = sent_messages(messages::views(list@));
    let mut i: usize = 0;
    assert(start + want.take(0) =~= start);
    while i < list.len()
        invariant
            i <= list@.len(),
            want == sent_messages(messages::views(list@)),
            request::message_views(out@) == start + want.take(i as int),
        decreases list@.len() - i,
    {
        let m = ChatMessage { role: role_name(list[i].role), parts: parts_of(&list[i].content) };
        let ghost before = out@;
        assert(m@ == want[i as int]);
        out.push(m);
        assert(request::message_views(out@) =~= request::message_views(before).push(m@));
        assert(start + want.take(i + 1) =~= (start + want.take(i as int)).push(m@));
        i += 1;
    }
    assert(want.take(list@.len() as int) =~= want);
}

/// Converts messages to the provider-neutral form.
pub fn convert_messages_for_provider(list: &Vec<Message>) -> (r: Vec<ChatMessage>)
    ensures
        request::message_views(r@) == sent_messages(messages::views(list@)),
{
    let mut out: Vec<ChatMessage> = Vec::new();
    push_sent(&mut out, list);
    assert(request::message_views(out@) =~= sent_messages(messages::views(list@)));
    out
}

// ---- one answer -----------------------------------------------------------------------------------

/// A tool call as far as it was streamed.
#[derive(Debug)]
pub struct PendingToolCall {
    pub id: String,
    pub name: String,
    pub args_buf: String,
}

/// What a `PendingToolCall` denotes.
pub struct CallView {
    pub id: Seq<char>,
    pub name: Seq<char>,
    pub args: Seq<char>,
}

impl View for PendingToolCall {
    type V = CallView;

    open spec fn view(&self) -> CallView {
        CallView { id: self.id@, name: self.name@, args: self.args_buf@ }
    }
}

/// The views of a list of calls.
pub open spec fn call_views(s: Seq<PendingToolCall>) -> Seq<CallView> {
    s.map_values(|c: PendingToolCall| c@)
}

/// An answer of the model, as far as it was read.
pub struct AnswerView {
    pub text: Seq<char>,
    pub thinking: Seq<char>,
    pub calls: Seq<CallView>,
    pub usage: Usage,
    pub stop: StopReason,
}

/// The answer before any event.
pub open spec fn no_answer() -> AnswerView {
    AnswerView {
        text: Seq::empty(),
        thinking: Seq::empty(),
        calls: Seq::empty(),
        usage: model::no_usage(),
        stop: StopReason::Stop,
    }
}

/// The answer after one more event. Argument fragments belong to the call that was started
/// last; those before any call are dropped.
pub open spec fn answer_next(a: AnswerView, e: StreamEventView) -> AnswerView {
    match e {
        StreamEventView::TextDelta { delta } => AnswerView { text: a.text + delta, ..a },
        StreamEventView::ThinkingDelta { delta } => AnswerView {
            thinking: a.thinking + delta,
            ..a
        },
        StreamEventView::ToolCallStarted { id, name } => AnswerView {
            calls: a.calls.push(CallView { id, name, args: Seq::empty() }),
            ..a
        },
        StreamEventView::ToolCallArgsDelta { delta, .. } => if a.calls.len() > 0 {
            let last = a.calls.last();
            AnswerView {
                calls: a.calls.update(
                    a.calls.len() - 1,
                    CallView { args: last.args + delta, ..last },
                ),
                ..a
            }
        } else {
            a
        },
        StreamEventView::Usage { usage } => AnswerView { usage, ..a },
        StreamEventView::Done { stop_reason } => AnswerView { stop: stop_reason, ..a },
        _ => a,
    }
}

/// What the reader of an answer says after an item.
#[derive(Debug)]
pub enum StreamStep {
    /// Read on.
    More,
    /// The answer is complete.
    Complete,
    /// The run fails.
    Failed(CoreError),
}

/// What a `StreamStep` denotes.
pub enum StreamStepView {
    More,
    Complete,
    Failed(CoreErrorView),
}

impl View for StreamStep {
    type V = StreamStepView;

    open spec fn view(&self) -> StreamStepView {
        match self {
            StreamStep::More => StreamStepView::More,
            StreamStep::Complete => StreamStepView::Complete,
            StreamStep::Failed(e) => StreamStepView::Failed(e@),
        }
    }
}

/// What the reader says to an item: cancellation comes first, then a stream error; the end
/// event completes the answer.
pub open spec fn item_step(
    item: Result<StreamEventView, AiErrorView>,
    cancelled: bool,
) -> StreamStepView {
    if cancelled {
        StreamStepView::Failed(CoreErrorView::Cancelled)
    } else {
        match item {
            Err(e) => StreamStepView::Failed(CoreErrorView::Ai(e)),
            Ok(StreamEventView::Done { .. }) => StreamStepView::Complete,
            Ok(_) => StreamStepView::More,
        }
    }
}

/// The answer that a whole stream gives: it ends at the first end event or with the stream,
/// and fails at the first error before that.
pub open spec fn answer_read(
    a: AnswerView,
    items: Seq<Result<StreamEventView, AiErrorView>>,
) -> Result<AnswerView, CoreErrorView>
    decreases items.len(),
{
    if items.len() == 0 {
        Ok(a)
    } else {
        match items[0] {
            Err(e) => Err(CoreErrorView::Ai(e)),
            Ok(e) => if e is Done {
                Ok(answer_next(a, e))
            } else {
                answer_read(answer_next(a, e), items.drop_first())
            },
        }
    }
}

/// Reads one answer off its events.
pub struct TurnStream {
    text: String,
    thinking: String,
    pending_tools: Vec<PendingToolCall>,
    usage: Usage,
    stop_reason: StopReason,
}

impl View for TurnStream {
    type V = AnswerView;

    closed spec fn view(&self) -> AnswerView {
        AnswerView {
            text: self.text@,
            thinking: self.thinking@,
            calls: call_views(self.pending_tools@),
            usage: self.usage,
            stop: self.stop_reason,
        }
    }
}

impl TurnStream {
    /// A reader that has read nothing.
    pub fn new() -> (r: Self)
        ensures
            r@ == no_answer(),
    {
        let r = TurnStream {
            text: String::new(),
            thinking: String::new(),
            pending_tools: Vec::new(),
            usage: Usage::default(),
            stop_reason: StopReason::Stop,
        };
        assert(r@.calls =~= Seq::empty());
        assert(r@.text =~= Seq::empty());
        assert(r@.thinking =~= Seq::empty());
        r
    }

    /// The answer of a provider that does not stream.
    pub fn of_whole(text: String, thinking: String, usage: Usage) -> (r: Self)
        ensures
            r@ == (AnswerView { text: text@, thinking: thinking@, usage, ..no_answer() }),
    {
        let r = TurnStream {
            text,
            thinking,
            pending_tools: Vec::new(),
            usage,
            stop_reason: StopReason::Stop,
        };
        assert(r@.calls =~= Seq::empty());
        r
    }

    /// The text that has been read.
    pub fn text(&self) -> (r: &str)
        ensures
            r@ == self@.text,
    {
        self.text.as_str()
    }

    /// Reads a whole answer that was received.
    pub fn read(received: StreamReader) -> (r: Result<TurnStream, CoreError>)
        ensures
            match r {
                Ok(t) => answer_read(no_answer(), received@) == Ok::<AnswerView, CoreErrorView>(
                    t@,
                ),
                Err(e) => answer_read(no_answer(), received@) == Err::<AnswerView, CoreErrorView>(
                    e@,
                ),
            },
    {
        let mut sr = received;
        let ghost want = answer_read(no_answer(), sr@);
        let mut t = TurnStream::new();
        loop
            invariant_except_break
                want == answer_read(t@, sr@),
            invariant
                want == answer_read(no_answer(), received@),
            ensures
                want == Ok::<AnswerView, CoreErrorView>(t@),
            decreases sr@.len(),
        {
            match sr.next() {
                None => {
                    break;
                },
                Some(item) => {
                    match t.feed(item, false) {
                        StreamStep::More => {},
                        StreamStep::Complete => {
                            break;
                        },
                        StreamStep::Failed(e) => {
                            return Err(e);
                        },
                    }
                },
            }
        }
        Ok(t)
    }

    /// Takes in the next item of the stream. `cancelled` says whether the run was cancelled
    /// when the item came.
    pub fn feed(&mut self, item: Result<StreamEvent, AiError>, cancelled: bool) -> (r: StreamStep)
        ensures
            r@ == item_step(stream::item_view(item), cancelled),
            final(self)@ == (match (cancelled, stream::item_view(item)) {
                (false, Ok(e)) => answer_next(old(self)@, e),
                _ => old(self)@,
            }),
    {
        if cancelled {
            return StreamStep::Failed(CoreError::Cancelled);
        }
        let ghost before = self@;
        match item {
            Err(e) => StreamStep::Failed(CoreError::Ai(e)),
            Ok(ev) => {
                match ev {
                    StreamEvent::TextDelta { delta } => {
                        self.text.append(delta.as_str());
                        StreamStep::More
                    },
                    StreamEvent::ThinkingDelta { delta } => {
                        self.thinking.append(delta.as_str());
                        StreamStep::More
                    },
                    StreamEvent::ToolCallStarted { id, name } => {
                        let call = PendingToolCall { id, name, args_buf: String::new() };
                        assert(call@.args =~= Seq::empty());
                        self.pending_tools.push(call);
                        assert(self@.calls =~= before.calls.push(call@));
                        StreamStep::More
                    },
                    StreamEvent::ToolCallArgsDelta { id: _, delta } => {
                        if let Some(mut call) = self.pending_tools.pop() {
                            call.args_buf.append(delta.as_str());
                            self.pending_tools.push(call);
                            assert(self@.calls =~= answer_next(before, ev@).calls);
                        }
                        StreamStep::More
                    },
                    StreamEvent::Usage { usage } => {
                        self.usage = usage;
                        StreamStep::More
                    },
                    StreamEvent::Done { stop_reason } => {
                        self.stop_reason = stop_reason;
                        StreamStep::Complete
                    },
                    _ => StreamStep::More,
                }
            },
        }
    }
}

// ---- the loop -------------------------------------------------------------------------------------

/// What one loop run is asked to do.
pub struct LoopConfig {
    pub model: Model,
    pub system: String,
    pub messages: Vec<Message>,
    pub tools: Vec<ToolSpec>,
    pub max_tokens: usize,
    pub thinking: ThinkingLevel,
    /// Maximum number of turns before a forced stop.
    pub max_turns: u32,
}

/// What a `LoopConfig` denotes.
pub struct ConfigView {
    pub model: ModelView,
    pub system: Seq<char>,
    pub messages: Seq<MessageView>,
    pub tools: Seq<ToolSpecView>,
    pub max_tokens: usize,
    pub thinking: ThinkingLevel,
    pub max_turns: u32,
}

impl View for LoopConfig {
    type V = ConfigView;

    open spec fn view(&self) -> ConfigView {
        ConfigView {
            model: self.model@,
            system: self.system@,
            messages: messages::views(self.messages@),
            tools: request::tool_views(self.tools@),
            max_tokens: self.max_tokens,
            thinking: self.thinking,
            max_turns: self.max_turns,
        }
    }
}

/// What a loop run ended in.
#[derive(Debug)]
pub struct LoopResult {
    /// All new messages of the run, assistant and tool results.
    pub messages: Vec<Message>,
    /// Usage over all turns.
    pub usage: Usage,
    /// The stop reason of the last answer.
    pub stop_reason: StopReason,
}

/// What a `LoopResult` denotes.
pub struct LoopResultView {
    pub messages: Seq<MessageView>,
    pub usage: Usage,
    pub stop_reason: StopReason,
}

impl View for LoopResult {
    type V = LoopResultView;

    open spec fn view(&self) -> LoopResultView {
        LoopResultView {
            messages: messages::views(self.messages@),
            usage: self.usage,
            stop_reason: self.stop_reason,
        }
    }
}

/// A run under way: what it was asked, the messages it made, the usage of its answers, the
/// turns it took and the tool calls that wait for results.
pub struct RunView {
    pub config: ConfigView,
    pub fresh: Seq<MessageView>,
    pub usage: Usage,
    pub turns: u32,
    pub waiting: nat,
}

/// A run that has not begun.
pub open spec fn run_start(config: ConfigView) -> RunView {
    RunView { config, fresh: Seq::empty(), usage: model::no_usage(), turns: 0, waiting: 0 }
}

/// The request of a turn: the conversation so far, the messages of the run at its end.
pub open spec fn turn_request(r: RunView) -> ProviderRequestView {
    ProviderRequestView {
        model: r.config.model,
        system: r.config.system,
        messages: sent_messages(r.config.messages) + sent_messages(r.fresh),
        thinking: r.config.thinking,
        max_tokens: r.config.max_tokens,
        tools: r.config.tools,
    }
}

/// What the loop wants done.
#[derive(Debug)]
pub enum LoopStep {
    /// Ask the model.
    Call(ProviderRequest),
    /// Run these tools.
    RunTools(Vec<ToolArgs>),
    /// The run is over.
    Finished(LoopResult),
    /// The run failed.
    Failed(CoreError),
}

/// What a `LoopStep` denotes.
pub enum LoopStepView {
    Call(ProviderRequestView),
    RunTools(Seq<ToolArgsView>),
    Finished(LoopResultView),
    Failed(CoreErrorView),
}

impl View for LoopStep {
    type V = LoopStepView;

    open spec fn view(&self) -> LoopStepView {
        match self {
            LoopStep::Call(req) => LoopStepView::Call(req@),
            LoopStep::RunTools(calls) => LoopStepView::RunTools(
                calls@.map_values(|c: ToolArgs| c@),
            ),
            LoopStep::Finished(res) => LoopStepView::Finished(res@),
            LoopStep::Failed(e) => LoopStepView::Failed(e@),
        }
    }
}

/// What a turn begins with: a cancelled run fails, one that has used up its turns stops, any
/// other asks the model.
pub open spec fn begin_step(r: RunView, cancelled: bool) -> LoopStepView {
    if cancelled {
        LoopStepView::Failed(CoreErrorView::Cancelled)
    } else if r.turns >= r.config.max_turns {
        LoopStepView::Finished(
            LoopResultView {
                messages: r.fresh,
                usage: r.usage,
                stop_reason: StopReason::Length,
            },
        )
    } else {
        LoopStepView::Call(turn_request(r))
    }
}

/// The run after a turn began.
pub open spec fn begun(r: RunView, cancelled: bool) -> RunView {
    if !cancelled && r.turns < r.config.max_turns {
        RunView { turns: (r.turns + 1) as u32, ..r }
    } else {
        r
    }
}

/// The blocks of an answer: thinking and text where not empty, then the tool calls.
pub open spec fn answer_blocks(a: AnswerView) -> Seq<BlockView> {
    let thinking = if a.thinking.len() > 0 {
        seq![BlockView::Thinking(a.thinking)]
    } else {
        Seq::empty()
    };
    let text = if a.text.len() > 0 {
        seq![BlockView::Text(a.text)]
    } else {
        Seq::empty()
    };
    thinking + text + a.calls.map_values(
        |c: CallView| BlockView::ToolCall { id: c.id, name: c.name, arguments: c.args },
    )
}

/// The message of an answer.
pub open spec fn answer_message(
    r: RunView,
    a: AnswerView,
    id: Seq<char>,
    timestamp: u64,
    provider: Seq<char>,
) -> MessageView {
    MessageView {
        id,
        role: Role::Assistant,
        content: ContentView::Assistant(answer_blocks(a)),
        usage: Some(a.usage),
        stop_reason: Some(a.stop),
        timestamp,
        provider: Some(provider),
        model: Some(r.config.model.id),
    }
}

/// A streamed call as a call to run: arguments that are not JSON count as null.
pub open spec fn call_args(c: CallView) -> ToolArgsView {
    ToolArgsView { call_id: c.id, name: c.name, arguments: json::parsed_or_null(c.args) }
}

/// Whether an answer asks for tools.
pub open spec fn wants_tools(a: AnswerView) -> bool {
    a.stop == StopReason::ToolUse && a.calls.len() > 0
}

/// The run after an answer was complete.
pub open spec fn answered(r: RunView, a: AnswerView, m: MessageView) -> RunView {
    RunView {
        fresh: r.fresh.push(m),
        usage: model::usage_sum(r.usage, a.usage),
        waiting: if wants_tools(a) {
            a.calls.len()
        } else {
            0
        },
        ..r
    }
}

/// What follows a complete answer, given the run after it.
pub open spec fn answered_step(r: RunView, a: AnswerView) -> LoopStepView {
    if wants_tools(a) {
        LoopStepView::RunTools(a.calls.map_values(|c: CallView| call_args(c)))
    } else {
        LoopStepView::Finished(
            LoopResultView { messages: r.fresh, usage: r.usage, stop_reason: a.stop },
        )
    }
}

/// The identity of a message made now: its id and its time.
#[derive(Debug)]
pub struct Stamp {
    pub id: String,
    pub timestamp: u64,
}

/// What a tool's result says to the model.
pub open spec fn result_text(r: Result<ToolOutputView, CoreErrorView>) -> Seq<char> {
    match r {
        Ok(o) => o.content,
        Err(e) => "[error] "@ + error::core_message(e),
    }
}

/// The message of a tool result.
pub open spec fn result_message(s: (Stamp, Result<ToolOutput, CoreError>)) -> MessageView {
    messages::user_message(s.0.id@, result_text(tools::result_view(s.1)), s.0.timestamp)
}

/// The run after the results of its tools came in: as many as it waits for are told.
pub open spec fn resulted(
    r: RunView,
    results: Seq<(Stamp, Result<ToolOutput, CoreError>)>,
) -> RunView {
    RunView {
        fresh: r.fresh + taken(results, r.waiting).map_values(
            |s: (Stamp, Result<ToolOutput, CoreError>)| result_message(s),
        ),
        waiting: 0,
        ..r
    }
}

/// An agent run.
pub struct AgentLoop {
    config: LoopConfig,
    fresh: Vec<Message>,
    usage: Usage,
    turns: u32,
    waiting: usize,
}

impl View for AgentLoop {
    type V = RunView;

    closed spec fn view(&self) -> RunView {
        RunView {
            config: self.config@,
            fresh: messages::views(self.fresh@),
            usage: self.usage,
            turns: self.turns,
            waiting: self.waiting as nat,
        }
    }
}

fn clone_tools(v: &Vec<ToolSpec>) -> (r: Vec<ToolSpec>)
    ensures
        request::tool_views(r@) == request::tool_views(v@),
{
    let mut out: Vec<ToolSpec> = Vec::new();
    let mut i: usize = 0;
    while i < v.len()
        invariant
            i <= v@.len(),
            out@.len() == i,
            forall|k: int| 0 <= k < i ==> (#[trigger] out@[k])@ == v@[k]@,
        decreases v@.len() - i,
    {
        out.push(v[i].clone());
        i += 1;
    }
    assert(request::tool_views(out@) =~= request::tool_views(v@));
    out
}

fn blocks_of(a: &TurnStream) -> (r: Vec<ContentBlock>)
    ensures
        messages::block_views(r@) == answer_blocks(a@),
{
    let mut blocks: Vec<ContentBlock> = Vec::new();
    if !a.thinking.as_str().is_empty() {
        blocks.push(ContentBlock::Thinking(a.thinking.clone()));
    }
    if !a.text.as_str().is_empty() {
        blocks.push(ContentBlock::Text(a.text.clone()));
    }
    let ghost head = messages::block_views(blocks@);
    let ghost n = blocks@.len();
    let mut i: usize = 0;
    while i < a.pending_tools.len()
        invariant
            i <= a.pending_tools@.len(),
            blocks@.len() == n + i,
            head.len() == n,
            forall|k: int| 0 <= k < n ==> (#[trigger] blocks@[k])@ == head[k],
            forall|k: int|
                n <= k < n + i ==> (#[trigger] blocks@[k])@ == (BlockView::ToolCall {
                    id: a.pending_tools@[k - n].id@,
                    name: a.pending_tools@[k - n].name@,
                    arguments: a.pending_tools@[k - n].args_buf@,
                }),
        decreases a.pending_tools@.len() - i,
    {
        let tc = &a.pending_tools[i];
        blocks.push(
            ContentBlock::ToolCall {
                id: tc.id.clone(),
                name: tc.name.clone(),
                arguments: tc.args_buf.clone(),
            },
        );
        i += 1;
    }
    assert(messages::block_views(blocks@) =~= answer_blocks(a@));
    blocks
}

impl AgentLoop {
    /// A run that has not begun.
    pub fn new(config: LoopConfig) -> (r: Self)
        ensures
            r@ == run_start(config@),
    {
        let r = AgentLoop {
            config,
            fresh: Vec::new(),
            usage: Usage::default(),
            turns: 0,
            waiting: 0,
        };
        assert(r@.fresh =~= Seq::empty());
        r
    }

    fn result(&self, stop_reason: StopReason) -> (r: LoopResult)
        ensures
            r@ == (LoopResultView { messages: self@.fresh, usage: self@.usage, stop_reason }),
    {
        LoopResult { messages: messages::clone_messages(&self.fresh), usage: self.usage, stop_reason }
    }

    /// Begins a turn. `cancelled` says whether the run was cancelled.
    pub fn begin_turn(&mut self, cancelled: bool) -> (r: LoopStep)
        ensures
            r@ == begin_step(old(self)@, cancelled),
            final(self)@ == begun(old(self)@, cancelled),
    {
        if cancelled {
            return LoopStep::Failed(CoreError::Cancelled);
        }
        if self.turns >= self.config.max_turns {
            return LoopStep::Finished(self.result(StopReason::Length));
        }
        self.turns += 1;
        let mut list: Vec<ChatMessage> = Vec::new();
        push_sent(&mut list, &self.config.messages);
        push_sent(&mut list, &self.fresh);
        assert(request::message_views(list@) =~= turn_request(old(self)@).messages);
        LoopStep::Call(
            ProviderRequest {
                model: self.config.model.clone(),
                system: self.config.system.clone(),
                messages: list,
                thinking: self.config.thinking,
                max_tokens: self.config.max_tokens,
                tools: clone_tools(&self.config.tools),
            },
        )
    }

    /// Takes in a complete answer from the provider called `provider`; `stamp` identifies
    /// the message that it becomes.
    pub fn complete_turn(&mut self, answer: TurnStream, stamp: Stamp, provider: &str) -> (r: LoopStep)
        ensures
            ({
                let m = answer_message(
                    old(self)@,
                    answer@,
                    stamp.id@,
                    stamp.timestamp,
                    provider@,
                );
                &&& final(self)@ == answered(old(self)@, answer@, m)
                &&& r@ == answered_step(answered(old(self)@, answer@, m), answer@)
            }),
    {
        self.usage.accumulate(&answer.usage);
        let m = Message {
            id: stamp.id,
            role: Role::Assistant,
            content: MessageContent::Assistant(blocks_of(&answer)),
            usage: Some(answer.usage),
            stop_reason: Some(answer.stop_reason),
            timestamp: stamp.timestamp,
            provider: Some(provider.to_owned()),
            model: Some(self.config.model.id.clone()),
        };
        let ghost before = self.fresh@;
        self.fresh.push(m);
        assert(messages::views(self.fresh@) =~= messages::views(before).push(m@));
        if answer.stop_reason != StopReason::ToolUse || answer.pending_tools.len() == 0 {
            self.waiting = 0;
            return LoopStep::Finished(self.result(answer.stop_reason));
        }
        self.waiting = answer.pending_tools.len();
        let mut calls: Vec<ToolArgs> = Vec::new();
        let mut i: usize = 0;
        while i < answer.pending_tools.len()
            invariant
                i <= answer.pending_tools@.len(),
                calls@.len() == i,
                forall|k: int|
                    0 <= k < i ==> (#[trigger] calls@[k])@ == call_args(
                        answer.pending_tools@[k]@,
                    ),
            decreases answer.pending_tools@.len() - i,
        {
            let tc = &answer.pending_tools[i];
            calls.push(
                ToolArgs {
                    call_id: tc.id.clone(),
                    name: tc.name.clone(),
                    arguments: json::parse_or_null(tc.args_buf.as_str()),
                },
            );
            i += 1;
        }
        assert(calls@.map_values(|c: ToolArgs| c@) =~= answer@.calls.map_values(
            |c: CallView| call_args(c),
        ));
        LoopStep::RunTools(calls)
    }

    /// Takes in the results of the tools, in the order of the calls, each with the identity
    /// of the message that it becomes. Results beyond the calls are ignored.
    pub fn tool_results(&mut self, results: Vec<(Stamp, Result<ToolOutput, CoreError>)>)
        ensures
            final(self)@ == resulted(old(self)@, results@),
    {
        let ghost start = self@;
        let ghost all = results@;
        let ghost want = taken(all, start.waiting).map_values(
            |s: (Stamp, Result<ToolOutput, CoreError>)| result_message(s),
        );
        let mut rest = results;
        let ghost mut done: int = 0;
        let mut left = self.waiting;
        assert(start.fresh + want.take(0) =~= start.fresh);
        while left > 0 && rest.len() > 0
            invariant
                0 <= done <= all.len(),
                done + left == start.waiting,
                rest@ =~= all.skip(done),
                want == taken(all, start.waiting).map_values(
                    |s: (Stamp, Result<ToolOutput, CoreError>)| result_message(s),
                ),
                want.len() == taken(all, start.waiting).len(),
                done <= want.len(),
                self@ == (RunView { fresh: start.fresh + want.take(done), ..start }),
            decreases left,
        {
            assert(rest@[0] == all[done]);
            let ghost item = rest@[0];
            let (stamp, result) = rest.remove(0);
            let content = match result {
                Ok(o) => o.content,
                Err(e) => text::cat("[error] ", e.message().as_str()),
            };
            let m = Message::user(stamp.id, content, stamp.timestamp);
            let ghost before = self.fresh@;
            assert(m@ == result_message(item));
            assert(want[done] == result_message(item));
            self.fresh.push(m);
            assert(messages::views(self.fresh@) =~= messages::views(before).push(m@));
            assert(start.fresh + want.take(done + 1) =~= (start.fresh + want.take(done)).push(m@));
            left -= 1;
            proof {
                done = done + 1;
            }
        }
        assert(done == want.len());
        assert(want.take(want.len() as int) =~= want);
        self.waiting = 0;
    }
}

/// The first `n` items of a list, or all of them.
pub open spec fn taken<T>(s: Seq<T>, n: nat) -> Seq<T> {
    if n <= s.len() {
        s.take(n as int)
    } else {
        s
    }
}

// ---- laws -----------------------------------------------------------------------------------------

/// A turn asks the model at most `max_turns` times: every call counts, none is made once the
/// count is reached, and the run then stops with the reason `Length`.
pub proof fn turns_are_bounded(r: RunView, cancelled: bool)
    ensures
        begin_step(r, cancelled) is Call ==> r.turns < r.config.max_turns && begun(r, cancelled).turns
            == r.turns + 1,
        begin_step(r, cancelled) !is Call ==> begun(r, cancelled) == r,
        !cancelled && r.turns >= r.config.max_turns ==> (begin_step(r, cancelled)
            matches LoopStepView::Finished(res) && res.stop_reason == StopReason::Length
            && res.messages == r.fresh),
        r.turns <= r.config.max_turns ==> begun(r, cancelled).turns <= r.config.max_turns,
{
}

/// A cancelled run makes no further call and reports the cancellation.
pub proof fn cancellation_stops_the_run(r: RunView, item: Result<StreamEventView, AiErrorView>)
    ensures
        begin_step(r, true) == LoopStepView::Failed(CoreErrorView::Cancelled),
        begun(r, true) == r,
        item_step(item, true) == StreamStepView::Failed(CoreErrorView::Cancelled),
{
}

/// A run only adds messages: what was asked and what was said before stays in place, and
/// every later request begins with the earlier conversation.
pub proof fn requests_extend_each_other(r: RunView, a: AnswerView, m: MessageView)
    ensures
        answered(r, a, m).config == r.config,
        answered(r, a, m).fresh.take(r.fresh.len() as int) == r.fresh,
        turn_request(answered(r, a, m)).messages == turn_request(r).messages.push(
            sent_message(m),
        ),
{
    let n = answered(r, a, m);
    assert(n.fresh.take(r.fresh.len() as int) =~= r.fresh);
    assert(sent_messages(n.fresh) =~= sent_messages(r.fresh).push(sent_message(m)));
    assert(turn_request(n).messages =~= turn_request(r).messages.push(sent_message(m)));
}

/// An answer without tool calls, or that did not stop for tools, ends the run with all the
/// messages the run made.
pub proof fn plain_answers_end_the_run(r: RunView, a: AnswerView, m: MessageView)
    requires
        a.stop != StopReason::ToolUse || a.calls.len() == 0,
    ensures
        answered_step(answered(r, a, m), a) == LoopStepView::Finished(
            LoopResultView {
                messages: r.fresh.push(m),
                usage: model::usage_sum(r.usage, a.usage),
                stop_reason: a.stop,
            },
        ),
{
}

/// An answer that stops for tools runs one call per streamed call, in their order.
pub proof fn calls_run_in_source_order(r: RunView, a: AnswerView, m: MessageView)
    requires
        wants_tools(a),
    ensures
        answered_step(answered(r, a, m), a) matches LoopStepView::RunTools(calls) && calls.len()
            == a.calls.len() && (forall|i: int|
            0 <= i < calls.len() ==> (#[trigger] calls[i]).call_id == a.calls[i].id
                && calls[i].name == a.calls[i].name),
        answered(r, a, m).waiting == a.calls.len(),
{
}

/// The usage of the assistant messages, added up.
pub open spec fn answers_usage(s: Seq<MessageView>) -> Usage
    decreases s.len(),
{
    if s.len() == 0 {
        model::no_usage()
    } else {
        let rest = answers_usage(s.drop_last());
        match (s.last().role, s.last().usage) {
            (Role::Assistant, Some(u)) => model::usage_sum(rest, u),
            _ => rest,
        }
    }
}

/// Whether a run's usage is what its answers add up to.
pub open spec fn accounted(r: RunView) -> bool {
    r.usage == answers_usage(r.fresh)
}

/// The usage of a run is always that of its answers, added up: it is so at the start, after
/// every answer, and after tool results.
pub proof fn usage_is_accounted(
    r: RunView,
    a: AnswerView,
    id: Seq<char>,
    timestamp: u64,
    provider: Seq<char>,
    results: Seq<(Stamp, Result<ToolOutput, CoreError>)>,
)
    requires
        accounted(r),
    ensures
        accounted(run_start(r.config)),
        accounted(answered(r, a, answer_message(r, a, id, timestamp, provider))),
        accounted(
            (RunView {
                fresh: r.fresh + results.map_values(
                    |s: (Stamp, Result<ToolOutput, CoreError>)| result_message(s),
                ),
                ..r
            }),
        ),
    decreases results.len(),
{
    let m = answer_message(r, a, id, timestamp, provider);
    assert(r.fresh.push(m).drop_last() =~= r.fresh);
    let told = results.map_values(
        |s: (Stamp, Result<ToolOutput, CoreError>)| result_message(s),
    );
    if results.len() == 0 {
        assert(r.fresh + told =~= r.fresh);
    } else {
        usage_is_accounted(r, a, id, timestamp, provider, results.drop_last());
        assert((r.fresh + told).drop_last() =~= r.fresh + results.drop_last().map_values(
            |s: (Stamp, Result<ToolOutput, CoreError>)| result_message(s),
        ));
        assert((r.fresh + told).last() == result_message(results.last()));
    }
}

/// Items behind the end of an answer do not change it.
pub proof fn answer_ends_at_done(
    a: AnswerView,
    items: Seq<Result<StreamEventView, AiErrorView>>,
    tail: Seq<Result<StreamEventView, AiErrorView>>,
)
    requires
        items.len() > 0,
        items.last() is Ok && items.last()->Ok_0 is Done,
    ensures
        answer_read(a, items + tail) == answer_read(a, items),
    decreases items.len(),
{
    assert((items + tail)[0] == items[0]);
    if let Ok(e) = items[0] {
        if !(e is Done) {
            assert((items + tail).drop_first() =~= items.drop_first() + tail);
            assert(items.drop_first().last() == items.last());
            answer_ends_at_done(answer_next(a, e), items.drop_first(), tail);
        }
    }
}

/// The text of an answer is the text that draining its stream gives, where the stream ends
/// at its first end event; likewise its thinking and its usage.
pub proof fn answer_matches_totals(items: Seq<Result<StreamEventView, AiErrorView>>)
    requires
        forall|i: int|
            0 <= i < items.len() ==> (#[trigger] items[i]) is Ok && (items[i]->Ok_0 is Done ==> i
                == items.len() - 1),
    ensures
        answer_read(no_answer(), items) is Ok,
        answer_read(no_answer(), items)->Ok_0.text == stream::totals(items).text,
        answer_read(no_answer(), items)->Ok_0.thinking == stream::totals(items).thinking,
        answer_read(no_answer(), items)->Ok_0.usage == stream::totals(items).usage,
{
    lemma_answer_prefix(no_answer(), items, 0);
    assert(items.take(0) =~= Seq::empty());
    assert(items.skip(0) =~= items);
}

proof fn lemma_answer_prefix(
    a: AnswerView,
    items: Seq<Result<StreamEventView, AiErrorView>>,
    n: int,
)
    requires
        0 <= n <= items.len(),
        forall|i: int|
            0 <= i < items.len() ==> (#[trigger] items[i]) is Ok && (items[i]->Ok_0 is Done ==> i
                == items.len() - 1),
        a.text == stream::totals(items.take(n)).text,
        a.thinking == stream::totals(items.take(n)).thinking,
        a.usage == stream::totals(items.take(n)).usage,
    ensures
        answer_read(a, items.skip(n)) is Ok,
        answer_read(a, items.skip(n))->Ok_0.text == stream::totals(items).text,
        answer_read(a, items.skip(n))->Ok_0.thinking == stream::totals(items).thinking,
        answer_read(a, items.skip(n))->Ok_0.usage == stream::totals(items).usage,
    decreases items.len() - n,
{
    if n == items.len() {
        assert(items.take(n) =~= items);
    } else {
        assert(items.skip(n)[0] == items[n]);
        assert(items.skip(n).drop_first() =~= items.skip(n + 1));
        assert(items.take(n + 1).drop_last() =~= items.take(n));
        assert(items.take(n + 1).last() == items[n]);
        let e = items[n]->Ok_0;
        if e is Done {
            assert(items.take(n + 1) =~= items);
        } else {
            lemma_answer_prefix(answer_next(a, e), items, n + 1);
        }
    }
}

/// The block that a part of an assistant message stands for.
pub open spec fn part_block(p: PartView) -> Option<BlockView> {
    match p {
        PartView::Text { text } => Some(BlockView::Text(text)),
        PartView::Thinking { thinking } => Some(BlockView::Thinking(thinking)),
        PartView::ToolCall { id, name, arguments } => Some(
            BlockView::ToolCall { id, name, arguments },
        ),
        PartView::ToolResult { .. } => None,
    }
}

/// An assistant message is sent whole: its blocks can be read back from the parts, in order.
pub proof fn blocks_read_back_from_parts(m: MessageView, blocks: Seq<BlockView>)
    requires
        m.content == ContentView::Assistant(blocks),
    ensures
        sent_message(m).parts.len() == blocks.len(),
        forall|i: int|
            0 <= i < blocks.len() ==> part_block(#[trigger] sent_message(m).parts[i]) == Some(
                blocks[i],
            ),
{
}

/// The text parts, one after the other.
pub open spec fn parts_said(s: Seq<PartView>) -> Seq<char>
    decreases s.len(),
{
    if s.len() == 0 {
        Seq::empty()
    } else {
        match s.last() {
            PartView::Text { text } => parts_said(s.drop_last()) + text,
            _ => parts_said(s.drop_last()),
        }
    }
}

/// The text of a list of blocks: the text blocks, one after the other.
pub open spec fn blocks_text(s: Seq<BlockView>) -> Seq<char>
    decreases s.len(),
{
    if s.len() == 0 {
        Seq::empty()
    } else {
        match s.last() {
            BlockView::Text(t) => blocks_text(s.drop_last()) + t,
            _ => blocks_text(s.drop_last()),
        }
    }
}

/// What the assistant said is what is sent as having been said.
pub proof fn said_text_is_sent(m: MessageView, blocks: Seq<BlockView>)
    requires
        m.content == ContentView::Assistant(blocks),
    ensures
        parts_said(sent_message(m).parts) == blocks_text(blocks),
    decreases blocks.len(),
{
    if blocks.len() > 0 {
        let less = MessageView { content: ContentView::Assistant(blocks.drop_last()), ..m };
        said_text_is_sent(less, blocks.drop_last());
        assert(sent_message(m).parts.drop_last() =~= sent_message(less).parts);
    }
}

/// A conversation is sent message by message, none left out or moved. Each goes under the
/// word for its role; plain text, and a tool's answer with its call and its outcome, go as
/// they are; an image goes as a note of its type and size.
pub proof fn conversation_is_sent_whole(s: Seq<MessageView>, i: int)
    requires
        0 <= i < s.len(),
    ensures
        sent_messages(s).len() == s.len(),
        s[i].role == Role::User ==> sent_messages(s)[i].role == "user"@,
        s[i].role == Role::Assistant ==> sent_messages(s)[i].role == "assistant"@,
        s[i].role == Role::ToolResult ==> sent_messages(s)[i].role == "tool"@,
        s[i].content matches ContentView::Text(t) ==> sent_messages(s)[i].parts == seq![
            PartView::Text { text: t },
        ],
        s[i].content matches ContentView::Assistant(blocks) ==> sent_messages(s)[i].parts.len()
            == blocks.len() && (forall|k: int|
            0 <= k < blocks.len() ==> part_block(#[trigger] sent_messages(s)[i].parts[k]) == Some(
                blocks[k],
            )),
        s[i].content matches ContentView::ToolResult { tool_call_id, content, is_error }
            ==> sent_messages(s)[i].parts == seq![
            PartView::ToolResult { tool_call_id, content, is_error },
        ],
        s[i].content matches ContentView::Image { mime, data } ==> sent_messages(s)[i].parts
            == seq![
            PartView::Text {
                text: "[image: "@ + mime + ", "@ + text::decimal(data.len()) + " bytes]"@,
            },
        ],
{
    if let ContentView::Assistant(blocks) = s[i].content {
        blocks_read_back_from_parts(s[i], blocks);
    }
}

/// Two conversations of the user's and the assistant's that differ are sent differently.
pub proof fn different_conversations_are_sent_differently(
    a: Seq<MessageView>,
    b: Seq<MessageView>,
    i: int,
)
    requires
        sent_messages(a) == sent_messages(b),
        0 <= i < a.len(),
    ensures
        a.len() == b.len(),
        a[i].role == b[i].role,
        a[i].content is Text && b[i].content is Text ==> a[i].content == b[i].content,
        a[i].content is Assistant && b[i].content is Assistant ==> a[i].content == b[i].content,
        a[i].content is ToolResult && b[i].content is ToolResult ==> a[i].content == b[i].content,
{
    assert(sent_messages(a).len() == sent_messages(b).len());
    assert(sent_messages(a)[i] == sent_messages(b)[i]);
    conversation_is_sent_whole(a, i);
    conversation_is_sent_whole(b, i);
    lemma_role_words();
    if let (ContentView::Text(t), ContentView::Text(u)) = (a[i].content, b[i].content) {
        assert(seq![PartView::Text { text: t }][0] == seq![PartView::Text { text: u }][0]);
    }
    if let (ContentView::Assistant(x), ContentView::Assistant(y)) = (a[i].content, b[i].content) {
        assert forall|k: int| 0 <= k < x.len() implies x[k] == y[k] by {
            assert(part_block(sent_messages(a)[i].parts[k]) == Some(x[k]));
            assert(part_block(sent_messages(b)[i].parts[k]) == Some(y[k]));
        }
        assert(x =~= y);
    }
    if let (
        ContentView::ToolResult { tool_call_id, content, is_error },
        ContentView::ToolResult { tool_call_id: id, content: c, is_error: e },
    ) = (a[i].content, b[i].content) {
        assert(seq![PartView::ToolResult { tool_call_id, content, is_error }][0] == seq![
            PartView::ToolResult { tool_call_id: id, content: c, is_error: e },
        ][0]);
    }
}

proof fn lemma_role_words()
    ensures
        "user"@ != "assistant"@,
        "user"@ != "tool"@,
        "assistant"@ != "tool"@,
{
    reveal_strlit("user");
    reveal_strlit("assistant");
    reveal_strlit("tool");
    assert("user"@.len() != "assistant"@.len());
    assert("user"@[0] != "tool"@[0]);
    assert("assistant"@.len() != "tool"@.len());
}


/// Every event of an answer changes what it is about and nothing else: text and thinking grow
/// by their deltas, a started call is the last one and has no arguments yet, fragments go to
/// the last call, usage and the stop reason are replaced.
pub proof fn events_change_what_they_are_about(a: AnswerView, e: StreamEventView)
    ensures
        e matches StreamEventView::TextDelta { delta } ==> answer_next(a, e).text == a.text + delta,
        !(e is TextDelta) ==> answer_next(a, e).text == a.text,
        e matches StreamEventView::ThinkingDelta { delta } ==> answer_next(a, e).thinking
            == a.thinking + delta,
        !(e is ThinkingDelta) ==> answer_next(a, e).thinking == a.thinking,
        e matches StreamEventView::Usage { usage } ==> answer_next(a, e).usage == usage,
        !(e is Usage) ==> answer_next(a, e).usage == a.usage,
        e matches StreamEventView::Done { stop_reason } ==> answer_next(a, e).stop == stop_reason,
        !(e is Done) ==> answer_next(a, e).stop == a.stop,
        e matches StreamEventView::ToolCallStarted { id, name } ==> {
            let c = answer_next(a, e).calls;
            &&& c.len() == a.calls.len() + 1
            &&& c.drop_last() == a.calls
            &&& c.last().id == id && c.last().name == name && c.last().args.len() == 0
        },
        e matches StreamEventView::ToolCallArgsDelta { delta, .. } && a.calls.len() > 0 ==> {
            let c = answer_next(a, e).calls;
            &&& c.len() == a.calls.len()
            &&& c.drop_last() == a.calls.drop_last()
            &&& c.last().id == a.calls.last().id && c.last().name == a.calls.last().name
            &&& c.last().args == a.calls.last().args + e->ToolCallArgsDelta_delta
        },
        a.calls.len() == 0 && !(e is ToolCallStarted) ==> answer_next(a, e).calls == a.calls,
        !(e is ToolCallStarted) && !(e is ToolCallArgsDelta) ==> answer_next(a, e).calls == a.calls,
{
    let c = answer_next(a, e).calls;
    if e is ToolCallStarted {
        assert(c.drop_last() =~= a.calls);
    } else if e is ToolCallArgsDelta && a.calls.len() > 0 {
        assert(c.drop_last() =~= a.calls.drop_last());
    }
}

/// The fragments, one after the other.
pub open spec fn fragments_joined(s: Seq<Seq<char>>) -> Seq<char>
    decreases s.len(),
{
    if s.len() == 0 {
        Seq::empty()
    } else {
        fragments_joined(s.drop_last()) + s.last()
    }
}

/// The answer after a list of events.
pub open spec fn answer_after(a: AnswerView, events: Seq<StreamEventView>) -> AnswerView
    decreases events.len(),
{
    if events.len() == 0 {
        a
    } else {
        answer_next(answer_after(a, events.drop_last()), events.last())
    }
}

/// The arguments of a call are its fragments, one after the other, whatever pieces they came
/// in; its id and its name are those it was started with, and the calls before it stay.
pub proof fn call_arguments_are_joined(
    a: AnswerView,
    id: Seq<char>,
    name: Seq<char>,
    events: Seq<StreamEventView>,
    fragments: Seq<Seq<char>>,
)
    requires
        events.len() == fragments.len() + 1,
        events[0] == (StreamEventView::ToolCallStarted { id, name }),
        forall|i: int|
            0 <= i < fragments.len() ==> (#[trigger] events[i + 1]
                matches StreamEventView::ToolCallArgsDelta { delta, .. } && delta == fragments[i]),
    ensures
        answer_after(a, events).calls == a.calls.push(
            CallView { id, name, args: fragments_joined(fragments) },
        ),
        answer_after(a, events).text == a.text,
        answer_after(a, events).thinking == a.thinking,
    decreases fragments.len(),
{
    let mid = answer_after(a, events.drop_last());
    if fragments.len() == 0 {
        assert(events.drop_last() =~= Seq::empty());
        assert(mid == a);
        assert(events.last() == events[0]);
        events_change_what_they_are_about(mid, events.last());
        assert(answer_after(a, events).calls.last().args =~= fragments_joined(fragments));
        assert(answer_after(a, events).calls =~= a.calls.push(
            CallView { id, name, args: fragments_joined(fragments) },
        ));
    } else {
        let shorter = events.drop_last();
        let rest = fragments.drop_last();
        assert forall|i: int| 0 <= i < rest.len() implies (#[trigger] shorter[i + 1]
            matches StreamEventView::ToolCallArgsDelta { delta, .. } && delta == rest[i]) by {
            assert(shorter[i + 1] == events[i + 1]);
        }
        assert(shorter[0] == events[0]);
        call_arguments_are_joined(a, id, name, shorter, rest);
        let n = fragments.len() - 1;
        assert(events[n + 1] == events.last());
        events_change_what_they_are_about(mid, events.last());
        assert(answer_after(a, events).calls =~= a.calls.push(
            CallView { id, name, args: fragments_joined(fragments) },
        ));
    }
}

/// The thinking of a list of blocks: the thinking blocks, one after the other.
pub open spec fn blocks_thinking(s: Seq<BlockView>) -> Seq<char>
    decreases s.len(),
{
    if s.len() == 0 {
        Seq::empty()
    } else {
        match s.last() {
            BlockView::Thinking(t) => blocks_thinking(s.drop_last()) + t,
            _ => blocks_thinking(s.drop_last()),
        }
    }
}

/// The calls among a list of blocks, in order.
pub open spec fn blocks_calls(s: Seq<BlockView>) -> Seq<CallView>
    decreases s.len(),
{
    if s.len() == 0 {
        Seq::empty()
    } else {
        match s.last() {
            BlockView::ToolCall { id, name, arguments } => blocks_calls(s.drop_last()).push(
                CallView { id, name, args: arguments },
            ),
            _ => blocks_calls(s.drop_last()),
        }
    }
}

proof fn lemma_call_blocks(head: Seq<BlockView>, calls: Seq<CallView>, tail: Seq<BlockView>)
    requires
        tail == calls.map_values(
            |c: CallView| BlockView::ToolCall { id: c.id, name: c.name, arguments: c.args },
        ),
    ensures
        blocks_text(head + tail) == blocks_text(head),
        blocks_thinking(head + tail) == blocks_thinking(head),
        blocks_calls(head + tail) == blocks_calls(head) + calls,
    decreases calls.len(),
{
    if calls.len() == 0 {
        assert(head + tail =~= head);
        assert(blocks_calls(head) + calls =~= blocks_calls(head));
    } else {
        assert((head + tail).drop_last() =~= head + tail.drop_last());
        assert(tail.drop_last() =~= calls.drop_last().map_values(
            |c: CallView| BlockView::ToolCall { id: c.id, name: c.name, arguments: c.args },
        ));
        lemma_call_blocks(head, calls.drop_last(), tail.drop_last());
        assert((head + tail).last() == tail.last());
        assert(blocks_calls(head) + calls =~= (blocks_calls(head) + calls.drop_last()).push(
            calls.last(),
        ));
    }
}

/// An answer becomes a message that holds all of it: its text, its thinking and its calls in
/// order, with its usage and stop reason, under the given id and time, from the given provider
/// and the model that was asked.
pub proof fn answers_are_kept_whole(
    r: RunView,
    a: AnswerView,
    id: Seq<char>,
    timestamp: u64,
    provider: Seq<char>,
)
    ensures
        ({
            let m = answer_message(r, a, id, timestamp, provider);
            &&& m.content matches ContentView::Assistant(blocks) && blocks_text(blocks) == a.text
                && blocks_thinking(blocks) == a.thinking && blocks_calls(blocks) == a.calls
            &&& m.role == Role::Assistant
            &&& m.usage == Some(a.usage)
            &&& m.stop_reason == Some(a.stop)
            &&& m.id == id
            &&& m.timestamp == timestamp
            &&& m.provider == Some(provider)
            &&& m.model == Some(r.config.model.id)
        }),
{
    let thinking = if a.thinking.len() > 0 {
        seq![BlockView::Thinking(a.thinking)]
    } else {
        Seq::empty()
    };
    let said = if a.text.len() > 0 {
        seq![BlockView::Text(a.text)]
    } else {
        Seq::empty()
    };
    let calls = a.calls.map_values(
        |c: CallView| BlockView::ToolCall { id: c.id, name: c.name, arguments: c.args },
    );
    let head = thinking + said;
    lemma_call_blocks(head, a.calls, calls);
    let none = Seq::<BlockView>::empty();
    assert(blocks_text(none) =~= Seq::<char>::empty());
    assert(blocks_thinking(none) =~= Seq::<char>::empty());
    assert(blocks_calls(none) =~= Seq::<CallView>::empty());
    assert(seq![BlockView::Thinking(a.thinking)].drop_last() =~= none);
    assert(blocks_thinking(thinking) =~= a.thinking);
    assert(blocks_text(thinking) =~= Seq::<char>::empty());
    assert(blocks_calls(thinking) =~= Seq::<CallView>::empty());
    if a.text.len() > 0 {
        assert(head.drop_last() =~= thinking);
        assert(blocks_text(head) =~= a.text);
    } else {
        assert(head =~= thinking);
        assert(a.text =~= Seq::<char>::empty());
    }
    assert(blocks_calls(head) + a.calls =~= a.calls);
}

/// The calls that an answer asks for are run with the arguments that were streamed: what they
/// denote as JSON, or null where they are no JSON.
pub proof fn calls_carry_their_arguments(r: RunView, a: AnswerView, m: MessageView, i: int)
    requires
        wants_tools(a),
        0 <= i < a.calls.len(),
    ensures
        answered_step(answered(r, a, m), a) is RunTools,
        ({
            let calls = answered_step(answered(r, a, m), a)->RunTools_0;
            &&& calls.len() == a.calls.len()
            &&& calls[i].call_id == a.calls[i].id
            &&& calls[i].name == a.calls[i].name
            &&& match json::parsed(a.calls[i].args) {
                Ok(v) => calls[i].arguments == v,
                Err(_) => calls[i].arguments is Null,
            }
        }),
{
}

/// Tools are run exactly where the answer stopped for them and names some; otherwise the run
/// is over.
pub proof fn tools_run_where_asked_for(r: RunView, a: AnswerView, m: MessageView)
    ensures
        answered_step(answered(r, a, m), a) is RunTools <==> a.stop == StopReason::ToolUse
            && a.calls.len() > 0,
        !(answered_step(answered(r, a, m), a) is RunTools) ==> answered_step(
            answered(r, a, m),
            a,
        ) is Finished,
{
}

/// The results of tools are fed back: behind all that was said before stands one message of
/// the user's for each call, in the order of the calls, that says what the tool gave, or that
/// it failed and why. The next request ends with them.
pub proof fn results_are_fed_back(
    r: RunView,
    results: Seq<(Stamp, Result<ToolOutput, CoreError>)>,
    i: int,
)
    requires
        r.waiting == results.len(),
        0 <= i < results.len(),
    ensures
        ({
            let n = resulted(r, results);
            let m = n.fresh[r.fresh.len() + i];
            &&& n.config == r.config && n.usage == r.usage && n.turns == r.turns
            &&& n.waiting == 0
            &&& n.fresh.len() == r.fresh.len() + results.len()
            &&& n.fresh.take(r.fresh.len() as int) == r.fresh
            &&& m.role == Role::User
            &&& m.id == results[i].0.id@
            &&& m.timestamp == results[i].0.timestamp
            &&& match results[i].1 {
                Ok(o) => m.content == ContentView::Text(o.content@),
                Err(e) => m.content == ContentView::Text(
                    "[error] "@ + error::core_message(e@),
                ),
            }
            &&& turn_request(n).messages.len() == turn_request(r).messages.len() + results.len()
            &&& turn_request(n).messages[turn_request(r).messages.len() + i] == sent_message(m)
        }),
{
    let n = resulted(r, results);
    assert(results.take(results.len() as int) =~= results);
    assert(n.fresh.take(r.fresh.len() as int) =~= r.fresh);
}

/// A turn asks the model that was configured, with the system prompt, the tools, the thinking
/// level and the limit that were configured, and with the whole conversation: what the run was
/// given, then what it made.
pub proof fn turns_ask_what_was_configured(r: RunView, i: int)
    requires
        r.turns < r.config.max_turns,
        0 <= i < r.config.messages.len() + r.fresh.len(),
    ensures
        begin_step(r, false) is Call,
        ({
            let req = begin_step(r, false)->Call_0;
            &&& req.model == r.config.model
            &&& req.system == r.config.system
            &&& req.tools == r.config.tools
            &&& req.thinking == r.config.thinking
            &&& req.max_tokens == r.config.max_tokens
            &&& req.messages.len() == r.config.messages.len() + r.fresh.len()
            &&& req.messages[i] == sent_message((r.config.messages + r.fresh)[i])
        }),
{
}

/// A run that has used up its turns says so and hands over all it made and used.
pub proof fn exhausted_runs_hand_over(r: RunView)
    requires
        r.turns >= r.config.max_turns,
    ensures
        begin_step(r, false) == LoopStepView::Finished(
            LoopResultView {
                messages: r.fresh,
                usage: r.usage,
                stop_reason: StopReason::Length,
            },
        ),
        run_start(r.config).fresh.len() == 0,
        run_start(r.config).turns == 0,
        run_start(r.config).config == r.config,
{
}

/// The reader goes on after every event but the end, fails at an error of the stream, and
/// stops where the run was cancelled, whatever comes.
pub proof fn items_are_answered(item: Result<StreamEventView, AiErrorView>, cancelled: bool)
    ensures
        item_step(item, cancelled) is More <==> !cancelled && item is Ok && !(item->Ok_0 is Done),
        item_step(item, cancelled) is Complete <==> !cancelled && item is Ok && item->Ok_0 is Done,
        !cancelled && item is Err ==> item_step(item, cancelled) == StreamStepView::Failed(
            CoreErrorView::Ai(item->Err_0),
        ),
{
}

/// Reading a stream that holds no error up to its end gives the events in order; the first
/// error fails it.
pub proof fn answers_follow_their_events(
    a: AnswerView,
    events: Seq<StreamEventView>,
    items: Seq<Result<StreamEventView, AiErrorView>>,
)
    requires
        items == events.map_values(|e: StreamEventView| Ok::<StreamEventView, AiErrorView>(e)),
        forall|i: int| 0 <= i < events.len() ==> !(#[trigger] events[i] is Done),
    ensures
        answer_read(a, items) == Ok::<AnswerView, CoreErrorView>(answer_after(a, events)),
        forall|stop: StopReason|
            answer_read(
                a,
                items.push(Ok(#[trigger] done_event(stop))),
            ) == Ok::<AnswerView, CoreErrorView>(AnswerView { stop, ..answer_after(a, events) }),
        forall|e: AiErrorView|
            answer_read(a, items.push(#[trigger] failed_item(e))) == Err::<
                AnswerView,
                CoreErrorView,
            >(CoreErrorView::Ai(e)),
    decreases events.len(),
{
    if events.len() == 0 {
        assert(items =~= Seq::empty());
        assert forall|stop: StopReason| answer_read(
            a,
            items.push(Ok(#[trigger] done_event(stop))),
        ) == Ok::<AnswerView, CoreErrorView>(AnswerView { stop, ..answer_after(a, events) }) by {
            assert(items.push(Ok(done_event(stop)))[0] == Ok::<StreamEventView, AiErrorView>(
                done_event(stop),
            ));
        }
        assert forall|e: AiErrorView| answer_read(
            a,
            items.push(#[trigger] failed_item(e)),
        ) == Err::<AnswerView, CoreErrorView>(CoreErrorView::Ai(e)) by {
            assert(items.push(failed_item(e))[0] == failed_item(e));
        }
    } else {
        let first = events[0];
        let rest = events.drop_first();
        let tail = items.drop_first();
        assert(tail =~= rest.map_values(
            |e: StreamEventView| Ok::<StreamEventView, AiErrorView>(e),
        ));
        assert forall|i: int| 0 <= i < rest.len() implies !(#[trigger] rest[i] is Done) by {
            assert(rest[i] == events[i + 1]);
        }
        answers_follow_their_events(answer_next(a, first), rest, tail);
        lemma_answer_from_front(a, events);
        assert(items[0] == Ok::<StreamEventView, AiErrorView>(first));
        assert forall|stop: StopReason| answer_read(
            a,
            items.push(Ok(#[trigger] done_event(stop))),
        ) == Ok::<AnswerView, CoreErrorView>(AnswerView { stop, ..answer_after(a, events) }) by {
            let all = items.push(Ok(done_event(stop)));
            assert(all[0] == items[0]);
            assert(all.drop_first() =~= tail.push(Ok(done_event(stop))));
        }
        assert forall|e: AiErrorView| answer_read(
            a,
            items.push(#[trigger] failed_item(e)),
        ) == Err::<AnswerView, CoreErrorView>(CoreErrorView::Ai(e)) by {
            let all = items.push(failed_item(e));
            assert(all[0] == items[0]);
            assert(all.drop_first() =~= tail.push(failed_item(e)));
        }
    }
}

/// The end of a stream.
pub open spec fn done_event(stop: StopReason) -> StreamEventView {
    StreamEventView::Done { stop_reason: stop }
}

/// An error of a stream.
pub open spec fn failed_item(e: AiErrorView) -> Result<StreamEventView, AiErrorView> {
    Err(e)
}

proof fn lemma_answer_from_front(a: AnswerView, events: Seq<StreamEventView>)
    requires
        events.len() > 0,
    ensures
        answer_after(a, events) == answer_after(answer_next(a, events[0]), events.drop_first()),
    decreases events.len(),
{
    reveal_with_fuel(answer_after, 2);
    if events.len() == 1 {
        assert(events.drop_last() =~= Seq::empty());
        assert(events.drop_first() =~= Seq::empty());
        assert(events.last() == events[0]);
    } else {
        let less = events.drop_last();
        lemma_answer_from_front(a, less);
        assert(less[0] == events[0]);
        assert(less.drop_first() =~= events.drop_first().drop_last());
        assert(events.drop_first().last() == events.last());
    }
}

/// A run tells as many results as it waits for: those beyond are dropped, and where fewer came
/// all are told.
pub proof fn results_beyond_are_dropped(
    r: RunView,
    results: Seq<(Stamp, Result<ToolOutput, CoreError>)>,
)
    ensures
        results.len() >= r.waiting ==> resulted(r, results) == resulted(
            r,
            results.take(r.waiting as int),
        ) && resulted(r, results).fresh.len() == r.fresh.len() + r.waiting,
        results.len() < r.waiting ==> resulted(r, results).fresh.len() == r.fresh.len()
            + results.len(),
        resulted(r, results).waiting == 0,
{
    if results.len() >= r.waiting {
        let t = results.take(r.waiting as int);
        assert(t.take(r.waiting as int) =~= t);
    }
}

/// An answer starts empty and counts as complete where the stream says nothing else; so does a
/// run.
pub proof fn answers_start_empty(config: ConfigView)
    ensures
        no_answer().text.len() == 0 && no_answer().thinking.len() == 0 && no_answer().calls.len()
            == 0,
        no_answer().stop == StopReason::Stop,
        no_answer().usage == model::no_usage(),
        run_start(config).usage == model::no_usage(),
        run_start(config).waiting == 0,
{
}

} // verus!
