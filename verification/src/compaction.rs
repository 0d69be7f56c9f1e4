//! Compaction: when the context grows beyond the window less a reserve, older messages are
//! summarised by the model and recent ones kept.

use crate::agent_loop;
use crate::bus::CompactionReason;
use crate::messages;
use crate::messages::{
    BlockView, ContentBlock, ContentView, Message, MessageContent, MessageView, Role,
};
use crate::model::{Model, ModelView, ThinkingLevel};
use crate::request::{
    ChatMessage, ChatMessageView, Part, PartView, ProviderRequest, ProviderRequestView,
};
use crate::text;
use vstd::prelude::*;
use vstd::string::*;

verus! {

/// When to compact and how much to keep.
#[derive(Debug, Clone, Copy)]
pub struct CompactionSettings {
    pub enabled: bool,
    /// a context beyond the window less this triggers compaction
    pub reserve_tokens: u64,
    /// newest tokens kept uncompressed
    pub keep_recent_tokens: u64,
    /// cap on a tool result in a summary request
    pub serialize_tool_result_max_chars: usize,
}

impl Default for CompactionSettings {
    fn default() -> (r: Self)
        ensures
            r == (CompactionSettings {
                enabled: true,
                reserve_tokens: 16_384,
                keep_recent_tokens: 20_000,
                serialize_tool_result_max_chars: 2_000,
            }),
    {
        CompactionSettings {
            enabled: true,
            reserve_tokens: 16_384,
            keep_recent_tokens: 20_000,
            serialize_tool_result_max_chars: 2_000,
        }
    }
}

/// Whether a context calls for compaction: it holds something, and does not leave the reserve
/// free in the window.
pub open spec fn crowded(s: CompactionSettings, context_tokens: u64, context_window: u64) -> bool {
    s.enabled && (context_tokens + s.reserve_tokens > context_window) && context_tokens > 0
}

impl CompactionSettings {
    /// Whether a context of this size calls for compaction.
    pub fn triggered(&self, context_tokens: u64, context_window: u64) -> (r: Option<
        CompactionReason,
    >)
        ensures
            r == (if crowded(*self, context_tokens, context_window) {
                Some(CompactionReason::Threshold)
            } else {
                None
            }),
    {
        if !self.enabled {
            return None;
        }
        if context_tokens > context_window.saturating_sub(self.reserve_tokens) {
            return Some(CompactionReason::Threshold);
        }
        None
    }
}

/// What a compaction ends in.
#[derive(Debug)]
pub struct CompactionResult {
    /// The summary that the model wrote.
    pub summary: String,
    /// The recent messages that were kept.
    pub retained_messages: Vec<Message>,
    /// Estimated tokens before compaction.
    pub tokens_before: u64,
}

/// What a `CompactionResult` denotes.
pub struct CompactionResultView {
    pub summary: Seq<char>,
    pub retained: Seq<MessageView>,
    pub tokens_before: u64,
}

impl View for CompactionResult {
    type V = CompactionResultView;

    open spec fn view(&self) -> CompactionResultView {
        CompactionResultView {
            summary: self.summary@,
            retained: messages::views(self.retained_messages@),
            tokens_before: self.tokens_before,
        }
    }
}

// ---- sizes ----------------------------------------------------------------------------------------

/// The characters of the blocks that count.
pub open spec fn block_chars(s: Seq<BlockView>) -> nat
    decreases s.len(),
{
    if s.len() == 0 {
        0
    } else {
        block_chars(s.drop_last()) + (match s.last() {
            BlockView::Text(t) => t.len(),
            BlockView::Thinking(t) => t.len(),
            BlockView::ToolCall { arguments, .. } => arguments.len(),
        })
    }
}

/// The characters of a message that count; an image counts 100.
pub open spec fn content_chars(c: ContentView) -> nat {
    match c {
        ContentView::Text(t) => t.len(),
        ContentView::Assistant(blocks) => block_chars(blocks),
        ContentView::ToolResult { content, .. } => content.len(),
        ContentView::Image { .. } => 100,
    }
}

/// The characters of a conversation that count.
pub open spec fn total_chars(s: Seq<MessageView>) -> nat
    decreases s.len(),
{
    if s.len() == 0 {
        0
    } else {
        total_chars(s.drop_last()) + content_chars(s.last().content)
    }
}

fn add_checked(a: Option<usize>, n: usize) -> (r: Option<usize>)
    ensures
        r == (match a {
            Some(x) => if x + n <= usize::MAX {
                Some((x + n) as usize)
            } else {
                None
            },
            None => None,
        }),
{
    match a {
        Some(x) => x.checked_add(n),
        None => None,
    }
}

spec fn holds(o: Option<usize>, n: nat) -> bool {
    match o {
        Some(x) => x == n,
        None => n > usize::MAX,
    }
}

fn count_blocks(v: &Vec<ContentBlock>) -> (r: Option<usize>)
    ensures
        holds(r, block_chars(messages::block_views(v@))),
{
    let ghost s = messages::block_views(v@);
    let mut n: Option<usize> = Some(0);
    let mut i: usize = 0;
    assert(s.take(0) =~= Seq::<BlockView>::empty());
    while i < v.len()
        invariant
            i <= v@.len(),
            s == messages::block_views(v@),
            holds(n, block_chars(s.take(i as int))),
        decreases v@.len() - i,
    {
        assert(s.take(i + 1).drop_last() =~= s.take(i as int));
        assert(s.take(i + 1).last() == v@[i as int]@);
        let k = match &v[i] {
            ContentBlock::Text(t) => t.as_str().unicode_len(),
            ContentBlock::Thinking(t) => t.as_str().unicode_len(),
            ContentBlock::ToolCall { arguments, .. } => arguments.as_str().unicode_len(),
        };
        n = add_checked(n, k);
        i += 1;
    }
    assert(s.take(s.len() as int) =~= s);
    n
}

fn count_chars(list: &Vec<Message>) -> (r: Option<usize>)
    ensures
        holds(r, total_chars(messages::views(list@))),
{
    let ghost s = messages::views(list@);
    let mut n: Option<usize> = Some(0);
    let mut i: usize = 0;
    assert(s.take(0) =~= Seq::<MessageView>::empty());
    while i < list.len()
        invariant
            i <= list@.len(),
            s == messages::views(list@),
            holds(n, total_chars(s.take(i as int))),
        decreases list@.len() - i,
    {
        assert(s.take(i + 1).drop_last() =~= s.take(i as int));
        assert(s.take(i + 1).last() == list@[i as int]@);
        let k = match &list[i].content {
            MessageContent::Text(t) => Some(t.as_str().unicode_len()),
            MessageContent::Assistant(blocks) => count_blocks(blocks),
            MessageContent::ToolResult { content, .. } => Some(content.as_str().unicode_len()),
            MessageContent::Image { .. } => Some(100),
        };
        n = match k {
            Some(k) => add_checked(n, k),
            None => None,
        };
        i += 1;
    }
    assert(s.take(s.len() as int) =~= s);
    n
}

/// Rough token estimate: four characters a token.
pub open spec fn token_estimate(s: Seq<MessageView>) -> nat {
    total_chars(s) / 4
}

/// Rough token estimate: four characters a token.
pub fn estimate_tokens(list: &Vec<Message>) -> (r: u64)
    requires
        total_chars(messages::views(list@)) <= usize::MAX,
    ensures
        r == token_estimate(messages::views(list@)),
{
    match count_chars(list) {
        Some(n) => (n as u64) / 4,
        None => 0,
    }
}

// ---- the text to summarise ------------------------------------------------------------------------

/// The text of a block in a summary request.
pub open spec fn block_summary(b: BlockView) -> Seq<char> {
    match b {
        BlockView::Text(t) => t,
        BlockView::Thinking(t) => "[thinking: "@ + t + "]"@,
        BlockView::ToolCall { name, arguments, .. } => "[tool call: "@ + name + "("@ + arguments
            + ")]"@,
    }
}

/// The texts of blocks, one after the other.
pub open spec fn block_summaries(s: Seq<BlockView>) -> Seq<char>
    decreases s.len(),
{
    if s.len() == 0 {
        Seq::empty()
    } else {
        block_summaries(s.drop_last()) + block_summary(s.last())
    }
}

/// A tool result of more than 2,000 characters is cut there and marked.
pub open spec fn result_summary(t: Seq<char>) -> Seq<char> {
    if t.len() > 2_000 {
        t.take(2_000) + "..."@
    } else {
        t
    }
}

/// The text of a message's content in a summary request.
pub open spec fn content_summary(c: ContentView) -> Seq<char> {
    match c {
        ContentView::Text(t) => t,
        ContentView::Assistant(blocks) => block_summaries(blocks),
        ContentView::ToolResult { tool_call_id, content, is_error } => (if is_error {
            "[ERROR] "@
        } else {
            Seq::empty()
        }) + "[tool_result for "@ + tool_call_id + "]: "@ + result_summary(content),
        ContentView::Image { mime, data } => agent_loop::image_text(mime, data.len()),
    }
}

/// The role's word in a summary request.
pub open spec fn summary_role(r: Role) -> Seq<char> {
    match r {
        Role::User => "User"@,
        Role::Assistant => "Assistant"@,
        Role::ToolResult => "ToolResult"@,
    }
}

/// A message in a summary request.
pub open spec fn message_summary(m: MessageView) -> Seq<char> {
    "["@ + summary_role(m.role) + "]: "@ + content_summary(m.content)
}

/// A conversation as text: its messages with blank lines between them.
pub open spec fn conversation_text(s: Seq<MessageView>) -> Seq<char> {
    text::joined(s.map_values(|m: MessageView| message_summary(m)), "\n\n"@)
}

fn result_text(t: &str) -> (r: String)
    ensures
        r@ == result_summary(t@),
{
    let chars = text::chars_of(t);
    if chars.len() > 2_000 {
        let mut out = text::string_of(&chars, 0, 2_000);
        out.append("...");
        assert(out@ =~= result_summary(t@));
        out
    } else {
        t.to_owned()
    }
}

fn blocks_text(v: &Vec<ContentBlock>) -> (r: String)
    ensures
        r@ == block_summaries(messages::block_views(v@)),
{
    let ghost s = messages::block_views(v@);
    let mut out = String::new();
    let mut i: usize = 0;
    assert(s.take(0) =~= Seq::<BlockView>::empty());
    assert(out@ =~= Seq::<char>::empty());
    while i < v.len()
        invariant
            i <= v@.len(),
            s == messages::block_views(v@),
            out@ == block_summaries(s.take(i as int)),
        decreases v@.len() - i,
    {
        proof {
            assert(s.take(i + 1).drop_last() =~= s.take(i as int));
            assert(s.take(i + 1).last() == v@[i as int]@);
        }
        match &v[i] {
            ContentBlock::Text(t) => {
                out.append(t.as_str());
            },
            ContentBlock::Thinking(t) => {
                let mut b = text::cat("[thinking: ", t.as_str());
                b.append("]");
                out.append(b.as_str());
            },
            ContentBlock::ToolCall { name, arguments, .. } => {
                let mut b = text::cat("[tool call: ", name.as_str());
                b.append("(");
                b.append(arguments.as_str());
                b.append(")]");
                out.append(b.as_str());
            },
        }
        i += 1;
    }
    assert(s.take(s.len() as int) =~= s);
    out
}

fn message_text(m: &Message) -> (r: String)
    ensures
        r@ == message_summary(m@),
{
    let mut out = text::cat(
        "[",
        match m.role {
            Role::User => "User",
            Role::Assistant => "Assistant",
            Role::ToolResult => "ToolResult",
        },
    );
    out.append("]: ");
    let content = match &m.content {
        MessageContent::Text(t) => t.clone(),
        MessageContent::Assistant(blocks) => blocks_text(blocks),
        MessageContent::ToolResult { tool_call_id, content, is_error } => {
            let mut t = if *is_error {
                "[ERROR] ".to_owned()
            } else {
                String::new()
            };
            t.append("[tool_result for ");
            t.append(tool_call_id.as_str());
            t.append("]: ");
            t.append(result_text(content.as_str()).as_str());
            assert(t@ =~= content_summary(m@.content));
            t
        },
        MessageContent::Image { mime, data } => agent_loop::image_placeholder(
            mime.as_str(),
            data.len(),
        ),
    };
    out.append(content.as_str());
    out
}

/// Puts the first `n` messages as text for the model to summarise.
pub fn serialize_for_summary(list: &Vec<Message>, n: usize) -> (r: String)
    requires
        n <= list@.len(),
    ensures
        r@ == conversation_text(messages::views(list@).take(n as int)),
{
    let ghost s = messages::views(list@).take(n as int);
    let mut parts: Vec<String> = Vec::new();
    let mut i: usize = 0;
    while i < n
        invariant
            i <= n <= list@.len(),
            s == messages::views(list@).take(n as int),
            parts@.len() == i,
            forall|k: int| 0 <= k < i ==> (#[trigger] parts@[k])@ == message_summary(s[k]),
        decreases n - i,
    {
        assert(s[i as int] == list@[i as int]@);
        parts.push(message_text(&list[i]));
        i += 1;
    }
    assert(text::strs(parts@) =~= s.map_values(|m: MessageView| message_summary(m)));
    text::join(&parts, "\n\n")
}

// ---- the compaction -------------------------------------------------------------------------------

/// The number of messages that are summarised.
pub open spec fn older_count(len: nat, keep: usize) -> int {
    if len <= keep {
        0
    } else {
        len - keep
    }
}

/// The prompt that asks for a summary.
pub open spec fn summary_prompt(conversation: Seq<char>) -> Seq<char> {
    "请简洁地总结以下对话历史。保留关键事实、决策、文件路径和后续对话需要的上下文。只输出摘要，不要前言。\n\n"@
        + conversation
}

/// The request that asks for a summary.
pub open spec fn summary_request(model: ModelView, conversation: Seq<char>) -> ProviderRequestView {
    ProviderRequestView {
        model,
        system: "你是一个对话总结器。请简洁地总结对话历史，保留关键事实、决策、文件路径和重要上下文。"@,
        messages: seq![
            ChatMessageView {
                role: "user"@,
                parts: seq![PartView::Text { text: summary_prompt(conversation) }],
            },
        ],
        thinking: ThinkingLevel::Off,
        max_tokens: 2048,
        tools: Seq::empty(),
    }
}

/// What a compaction needs done.
#[derive(Debug)]
pub enum CompactionPlan {
    /// Nothing is old enough; this is the result.
    Nothing(CompactionResult),
    /// Ask the model for a summary.
    Summarize(ProviderRequest),
}

/// What a `CompactionPlan` denotes.
pub enum PlanView {
    Nothing(CompactionResultView),
    Summarize(ProviderRequestView),
}

impl View for CompactionPlan {
    type V = PlanView;

    open spec fn view(&self) -> PlanView {
        match self {
            CompactionPlan::Nothing(r) => PlanView::Nothing(r@),
            CompactionPlan::Summarize(r) => PlanView::Summarize(r@),
        }
    }
}

/// What a finished compaction of a conversation is.
pub open spec fn compacted(s: Seq<MessageView>, keep: usize, summary: Seq<char>) -> CompactionResultView {
    CompactionResultView {
        summary,
        retained: s.skip(older_count(s.len(), keep)),
        tokens_before: (total_chars(s) / 4) as u64,
    }
}

/// What a compaction needs done: nothing where all messages are kept, else a summary of those
/// that are not.
pub open spec fn compaction_plan(s: Seq<MessageView>, keep: usize, model: ModelView) -> PlanView {
    if s.len() <= keep {
        PlanView::Nothing(compacted(s, keep, Seq::empty()))
    } else {
        PlanView::Summarize(
            summary_request(model, conversation_text(s.take(older_count(s.len(), keep)))),
        )
    }
}

/// Whether a conversation can be measured: its size fits a machine word.
pub open spec fn compactable(s: Seq<MessageView>) -> bool {
    total_chars(s) <= usize::MAX
}

/// Decides `compactable`.
pub fn can_compact(list: &Vec<Message>) -> (r: bool)
    ensures
        r == compactable(messages::views(list@)),
{
    count_chars(list).is_some()
}

/// Begins a compaction that keeps the last `keep_count` messages.
pub fn compact_messages(list: &Vec<Message>, keep_count: usize, model: &Model) -> (r: CompactionPlan)
    requires
        compactable(messages::views(list@)),
    ensures
        r@ == compaction_plan(messages::views(list@), keep_count, model@),
{
    if list.len() <= keep_count {
        return CompactionPlan::Nothing(finish_compaction(list, keep_count, String::new()));
    }
    let n = list.len() - keep_count;
    let conversation = serialize_for_summary(list, n);
    let prompt = text::cat(
        "请简洁地总结以下对话历史。保留关键事实、决策、文件路径和后续对话需要的上下文。只输出摘要，不要前言。\n\n",
        conversation.as_str(),
    );
    let mut parts: Vec<Part> = Vec::new();
    parts.push(Part::Text { text: prompt });
    let m = ChatMessage { role: "user".to_owned(), parts };
    let mut list2: Vec<ChatMessage> = Vec::new();
    list2.push(m);
    let req = ProviderRequest {
        model: model.clone(),
        system:
            "你是一个对话总结器。请简洁地总结对话历史，保留关键事实、决策、文件路径和重要上下文。".to_owned(),
        messages: list2,
        thinking: ThinkingLevel::Off,
        max_tokens: 2048,
        tools: Vec::new(),
    };
    proof {
        let want = summary_request(model@, conversation@);
        assert(m@.parts =~= want.messages[0].parts);
        assert(req@.messages =~= want.messages);
        assert(req@.tools =~= want.tools);
    }
    CompactionPlan::Summarize(req)
}

/// Ends a compaction with the summary that the model wrote.
pub fn finish_compaction(list: &Vec<Message>, keep_count: usize, summary: String) -> (r:
    CompactionResult)
    requires
        compactable(messages::views(list@)),
    ensures
        r@ == compacted(messages::views(list@), keep_count, summary@),
{
    let ghost s = messages::views(list@);
    let n = if list.len() <= keep_count {
        0
    } else {
        list.len() - keep_count
    };
    let mut kept: Vec<Message> = Vec::new();
    let mut i: usize = n;
    while i < list.len()
        invariant
            n <= i <= list@.len(),
            s == messages::views(list@),
            kept@.len() == i - n,
            forall|k: int| 0 <= k < i - n ==> (#[trigger] kept@[k])@ == s[k + n],
        decreases list@.len() - i,
    {
        kept.push(list[i].clone());
        i += 1;
    }
    assert(messages::views(kept@) =~= s.skip(n as int));
    CompactionResult { summary, retained_messages: kept, tokens_before: estimate_tokens(list) }
}

// ---- laws -----------------------------------------------------------------------------------------

/// A compaction splits the conversation: what is summarised followed by what is kept is the
/// whole, and at most `keep` messages are kept.
pub proof fn compaction_splits_the_conversation(s: Seq<MessageView>, keep: usize, summary: Seq<char>)
    ensures
        s.take(older_count(s.len(), keep)) + compacted(s, keep, summary).retained == s,
        compacted(s, keep, summary).retained.len() <= keep,
        s.len() > keep ==> compacted(s, keep, summary).retained.len() == keep,
{
    let n = older_count(s.len(), keep);
    assert(s.take(n) + s.skip(n) =~= s);
}

/// A context calls for compaction exactly where what it leaves of the window is less than the
/// reserve; one that is switched off, or holds nothing, never does.
pub proof fn reserve_is_kept_free(s: CompactionSettings, tokens: u64, window: u64)
    ensures
        s.enabled && tokens > 0 && s.reserve_tokens <= window ==> (crowded(s, tokens, window) <==>
            tokens > window - s.reserve_tokens),
        s.enabled && tokens > 0 && s.reserve_tokens > window ==> crowded(s, tokens, window),
        !s.enabled ==> !crowded(s, tokens, window),
        tokens == 0 ==> !crowded(s, tokens, window),
{
}

/// Sizes add up: a conversation is as large as its messages, an assistant message as its blocks.
/// Texts, thinking, arguments and results count by their characters, an image for a hundred.
pub proof fn sizes_add_up(
    s: Seq<MessageView>,
    m: MessageView,
    blocks: Seq<BlockView>,
    id: Seq<char>,
    name: Seq<char>,
    t: Seq<char>,
    data: Seq<u8>,
    is_error: bool,
)
    ensures
        total_chars(Seq::empty()) == 0,
        total_chars(s.push(m)) == total_chars(s) + content_chars(m.content),
        content_chars(ContentView::Text(t)) == t.len(),
        content_chars(ContentView::Assistant(Seq::empty())) == 0,
        content_chars(ContentView::Assistant(blocks.push(BlockView::Text(t)))) == content_chars(
            ContentView::Assistant(blocks),
        ) + t.len(),
        content_chars(ContentView::Assistant(blocks.push(BlockView::Thinking(t)))) == content_chars(
            ContentView::Assistant(blocks),
        ) + t.len(),
        content_chars(
            ContentView::Assistant(blocks.push(BlockView::ToolCall { id, name, arguments: t })),
        ) == content_chars(ContentView::Assistant(blocks)) + t.len(),
        content_chars(
            ContentView::ToolResult { tool_call_id: id, content: t, is_error },
        ) == t.len(),
        content_chars(ContentView::Image { mime: t, data }) == 100,
        total_chars(s) >= 4 * token_estimate(s),
        total_chars(s) < 4 * token_estimate(s) + 4,
{
    assert(s.push(m).drop_last() =~= s);
    assert(blocks.push(BlockView::Text(t)).drop_last() =~= blocks);
    assert(blocks.push(BlockView::Thinking(t)).drop_last() =~= blocks);
    assert(blocks.push(BlockView::ToolCall { id, name, arguments: t }).drop_last() =~= blocks);
}

/// The texts of blocks follow one another: texts as they are, thinking and tool calls in
/// brackets that say what they are.
pub proof fn blocks_are_summarised(
    s: Seq<BlockView>,
    id: Seq<char>,
    name: Seq<char>,
    t: Seq<char>,
)
    ensures
        block_summaries(Seq::empty()).len() == 0,
        block_summaries(s.push(BlockView::Text(t))) == block_summaries(s) + t,
        block_summaries(s.push(BlockView::Thinking(t))) == block_summaries(s) + ("[thinking: "@ + t
            + "]"@),
        block_summaries(s.push(BlockView::ToolCall { id, name, arguments: t })) == block_summaries(s)
            + ("[tool call: "@ + name + "("@ + t + ")]"@),
{
    assert(s.push(BlockView::Text(t)).drop_last() =~= s);
    assert(s.push(BlockView::Thinking(t)).drop_last() =~= s);
    assert(s.push(BlockView::ToolCall { id, name, arguments: t }).drop_last() =~= s);
}

/// A message is summarised under its role: a text whole, a result behind the id of its call,
/// marked where it is an error, and shortened where it is long.
pub proof fn messages_are_summarised(m: MessageView)
    ensures
        m.role == Role::User ==> text::has_prefix(message_summary(m), "[User]: "@),
        m.role == Role::Assistant ==> text::has_prefix(message_summary(m), "[Assistant]: "@),
        m.role == Role::ToolResult ==> text::has_prefix(message_summary(m), "[ToolResult]: "@),
        m.content matches ContentView::Text(t) ==> text::has_suffix(message_summary(m), t)
            && content_summary(m.content) == t,
        m.content matches ContentView::Assistant(blocks) ==> content_summary(m.content)
            == block_summaries(blocks),
        m.content matches ContentView::ToolResult { tool_call_id, content, is_error } ==> (is_error
            && content.len() <= 2_000 ==> content_summary(m.content) == "[ERROR] "@
            + "[tool_result for "@ + tool_call_id + "]: "@ + content) && (!is_error && content.len()
            <= 2_000 ==> content_summary(m.content) == "[tool_result for "@ + tool_call_id + "]: "@
            + content),
        m.content matches ContentView::Image { mime, data } ==> content_summary(m.content)
            == "[image: "@ + mime + ", "@ + text::decimal(data.len()) + " bytes]"@,
        message_summary(m).len() == "["@.len() + summary_role(m.role).len() + "]: "@.len()
            + content_summary(m.content).len(),
{
    reveal_strlit("[");
    reveal_strlit("]: ");
    reveal_strlit("User");
    reveal_strlit("Assistant");
    reveal_strlit("ToolResult");
    reveal_strlit("[User]: ");
    reveal_strlit("[Assistant]: ");
    reveal_strlit("[ToolResult]: ");
    let t = message_summary(m);
    let c = content_summary(m.content);
    assert("["@ + "User"@ + "]: "@ =~= "[User]: "@);
    assert("["@ + "Assistant"@ + "]: "@ =~= "[Assistant]: "@);
    assert("["@ + "ToolResult"@ + "]: "@ =~= "[ToolResult]: "@);
    let head = "["@ + summary_role(m.role) + "]: "@;
    assert(t =~= head + c);
    assert(t.take(head.len() as int) =~= head);
    assert(t.skip(t.len() - c.len()) =~= c);
    if let ContentView::ToolResult { tool_call_id, content, is_error } = m.content {
        if !is_error && content.len() <= 2_000 {
            assert(c =~= "[tool_result for "@ + tool_call_id + "]: "@ + content);
        }
    }
}

/// A result of up to 2,000 characters is put as it is; of a longer one the first 2,000 are, and
/// three dots.
pub proof fn long_results_are_shortened(p: Seq<char>, rest: Seq<char>)
    ensures
        p.len() <= 2_000 ==> result_summary(p) == p,
        p.len() == 2_000 && rest.len() > 0 ==> result_summary(p + rest) == p + "..."@,
{
    assert((p + rest).take(p.len() as int) =~= p);
}

/// A conversation is put message by message, each behind a blank line but the first.
pub proof fn conversations_are_put_in_order(s: Seq<MessageView>, m: MessageView)
    ensures
        conversation_text(Seq::empty()).len() == 0,
        conversation_text(seq![m]) == message_summary(m),
        s.len() > 0 ==> conversation_text(s.push(m)) == conversation_text(s) + "\n\n"@
            + message_summary(m),
{
    let f = |x: MessageView| message_summary(x);
    assert(seq![m].map_values(f) =~= Seq::<Seq<char>>::empty().push(message_summary(m)));
    assert(s.push(m).map_values(f) =~= s.map_values(f).push(message_summary(m)));
    assert(s.push(m).map_values(f).drop_last() =~= s.map_values(f));
    assert(Seq::<MessageView>::empty().map_values(f) =~= Seq::<Seq<char>>::empty());
    text::joining_separates_neighbours(s.map_values(f), message_summary(m), "\n\n"@);
    text::joining_separates_neighbours(
        Seq::<Seq<char>>::empty(),
        message_summary(m),
        "\n\n"@,
    );
}

/// Messages that are all kept need no summary. Otherwise the model is asked, as the user, for a
/// summary of exactly the messages that are not kept, without thinking or tools.
pub proof fn older_messages_are_summarised(
    older: Seq<MessageView>,
    kept: Seq<MessageView>,
    keep: usize,
    model: ModelView,
    summary: Seq<char>,
)
    requires
        kept.len() == keep,
    ensures
        compaction_plan(kept, keep, model) matches PlanView::Nothing(r) && r.retained == kept
            && r.summary.len() == 0,
        older.len() > 0 ==> (compaction_plan(
            older + kept,
            keep,
            model,
        ) matches PlanView::Summarize(req) && req.model == model && req.max_tokens == 2048
            && req.thinking == ThinkingLevel::Off && req.tools.len() == 0 && req.messages.len() == 1
            && req.messages[0].role == "user"@ && req.messages[0].parts.len() == 1
            && req.messages[0].parts[0] == (PartView::Text {
            text:
                "请简洁地总结以下对话历史。保留关键事实、决策、文件路径和后续对话需要的上下文。只输出摘要，不要前言。\n\n"@
                + conversation_text(older),
        })),
        older.len() > 0 ==> (compaction_plan(
            older + kept,
            keep,
            model,
        ) matches PlanView::Summarize(req) && req.system
            == "你是一个对话总结器。请简洁地总结对话历史，保留关键事实、决策、文件路径和重要上下文。"@),
        compacted(older + kept, keep, summary).retained == kept,
        compacted(older + kept, keep, summary).summary == summary,
        token_estimate(older + kept) <= u64::MAX ==> compacted(
            older + kept,
            keep,
            summary,
        ).tokens_before == token_estimate(older + kept),
{
    let all = older + kept;
    assert(all.take(older.len() as int) =~= older);
    assert(all.skip(older.len() as int) =~= kept);
    assert(kept.skip(0) =~= kept);
}

} // verus!
