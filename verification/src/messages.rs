//! Conversation messages, provider-neutral.

use crate::model::Usage;
use crate::stream::StopReason;
use crate::text;
use vstd::prelude::*;

verus! {

/// Who a message is from.
#[derive(Debug, Clone, Copy, PartialEq, Eq, Structural)]
pub enum Role {
    User,
    Assistant,
    ToolResult,
}

/// A block of assistant output.
#[derive(Debug)]
pub enum ContentBlock {
    Text(String),
    Thinking(String),
    ToolCall { id: String, name: String, arguments: String },
}

/// What a `ContentBlock` denotes.
pub enum BlockView {
    Text(Seq<char>),
    Thinking(Seq<char>),
    ToolCall { id: Seq<char>, name: Seq<char>, arguments: Seq<char> },
}

impl View for ContentBlock {
    type V = BlockView;

    open spec fn view(&self) -> BlockView {
        match self {
            ContentBlock::Text(t) => BlockView::Text(t@),
            ContentBlock::Thinking(t) => BlockView::Thinking(t@),
            ContentBlock::ToolCall { id, name, arguments } => BlockView::ToolCall {
                id: id@,
                name: name@,
                arguments: arguments@,
            },
        }
    }
}

impl Clone for ContentBlock {
    fn clone(&self) -> (r: Self)
        ensures
            r == *self,
    {
        match self {
            ContentBlock::Text(t) => ContentBlock::Text(t.clone()),
            ContentBlock::Thinking(t) => ContentBlock::Thinking(t.clone()),
            ContentBlock::ToolCall { id, name, arguments } => ContentBlock::ToolCall {
                id: id.clone(),
                name: name.clone(),
                arguments: arguments.clone(),
            },
        }
    }
}

/// The views of a list of blocks.
pub open spec fn block_views(s: Seq<ContentBlock>) -> Seq<BlockView> {
    s.map_values(|b: ContentBlock| b@)
}

/// What a message says.
#[derive(Debug)]
pub enum MessageContent {
    Text(String),
    /// text, thinking and tool calls interleaved
    Assistant(Vec<ContentBlock>),
    /// the answer to a tool call
    ToolResult { tool_call_id: String, content: String, is_error: bool },
    Image { mime: String, data: Vec<u8> },
}

/// What a `MessageContent` denotes.
pub enum ContentView {
    Text(Seq<char>),
    Assistant(Seq<BlockView>),
    ToolResult { tool_call_id: Seq<char>, content: Seq<char>, is_error: bool },
    Image { mime: Seq<char>, data: Seq<u8> },
}

impl View for MessageContent {
    type V = ContentView;

    open spec fn view(&self) -> ContentView {
        match self {
            MessageContent::Text(t) => ContentView::Text(t@),
            MessageContent::Assistant(b) => ContentView::Assistant(block_views(b@)),
            MessageContent::ToolResult { tool_call_id, content, is_error } =>
                ContentView::ToolResult {
                tool_call_id: tool_call_id@,
                content: content@,
                is_error: *is_error,
            },
            MessageContent::Image { mime, data } => ContentView::Image { mime: mime@, data: data@ },
        }
    }
}

fn clone_blocks(v: &Vec<ContentBlock>) -> (r: Vec<ContentBlock>)
    ensures
        r@ == v@,
{
    let mut out: Vec<ContentBlock> = Vec::new();
    let mut i: usize = 0;
    while i < v.len()
        invariant
            i <= v@.len(),
            out@ =~= v@.take(i as int),
        decreases v@.len() - i,
    {
        out.push(v[i].clone());
        i += 1;
    }
    out
}

fn clone_bytes(v: &Vec<u8>) -> (r: Vec<u8>)
    ensures
        r@ == v@,
{
    let mut out: Vec<u8> = Vec::new();
    let mut i: usize = 0;
    while i < v.len()
        invariant
            i <= v@.len(),
            out@ =~= v@.take(i as int),
        decreases v@.len() - i,
    {
        out.push(v[i]);
        i += 1;
    }
    out
}

impl Clone for MessageContent {
    fn clone(&self) -> (r: Self)
        ensures
            r@ == self@,
    {
        match self {
            MessageContent::Text(t) => MessageContent::Text(t.clone()),
            MessageContent::Assistant(b) => MessageContent::Assistant(clone_blocks(b)),
            MessageContent::ToolResult { tool_call_id, content, is_error } =>
                MessageContent::ToolResult {
                tool_call_id: tool_call_id.clone(),
                content: content.clone(),
                is_error: *is_error,
            },
            MessageContent::Image { mime, data } => MessageContent::Image {
                mime: mime.clone(),
                data: clone_bytes(data),
            },
        }
    }
}

/// A single message.
#[derive(Debug)]
pub struct Message {
    pub id: String,
    pub role: Role,
    pub content: MessageContent,
    pub usage: Option<Usage>,
    pub stop_reason: Option<StopReason>,
    pub timestamp: u64,
    pub provider: Option<String>,
    pub model: Option<String>,
}

/// What a `Message` denotes.
pub struct MessageView {
    pub id: Seq<char>,
    pub role: Role,
    pub content: ContentView,
    pub usage: Option<Usage>,
    pub stop_reason: Option<StopReason>,
    pub timestamp: u64,
    pub provider: Option<Seq<char>>,
    pub model: Option<Seq<char>>,
}

impl View for Message {
    type V = MessageView;

    open spec fn view(&self) -> MessageView {
        MessageView {
            id: self.id@,
            role: self.role,
            content: self.content@,
            usage: self.usage,
            stop_reason: self.stop_reason,
            timestamp: self.timestamp,
            provider: text::opt_str(self.provider),
            model: text::opt_str(self.model),
        }
    }
}

fn clone_opt(o: &Option<String>) -> (r: Option<String>)
    ensures
        text::opt_str(r) == text::opt_str(*o),
{
    match o {
        Some(t) => Some(t.clone()),
        None => None,
    }
}

impl Clone for Message {
    fn clone(&self) -> (r: Self)
        ensures
            r@ == self@,
    {
        Message {
            id: self.id.clone(),
            role: self.role,
            content: self.content.clone(),
            usage: self.usage,
            stop_reason: self.stop_reason,
            timestamp: self.timestamp,
            provider: clone_opt(&self.provider),
            model: clone_opt(&self.model),
        }
    }
}

pub type UserMessage = Message;

pub type AssistantMessage = Message;

pub type ToolResultMessage = Message;

/// The views of a list of messages.
pub open spec fn views(s: Seq<Message>) -> Seq<MessageView> {
    s.map_values(|m: Message| m@)
}

/// A copy of a list of messages.
pub fn clone_messages(v: &Vec<Message>) -> (r: Vec<Message>)
    ensures
        views(r@) == views(v@),
{
    let mut out: Vec<Message> = Vec::new();
    let mut i: usize = 0;
    while i < v.len()
        invariant
            i <= v@.len(),
            views(out@) =~= views(v@).take(i as int),
        decreases v@.len() - i,
    {
        let m = v[i].clone();
        let ghost before = out@;
        out.push(m);
        assert(views(out@) =~= views(before).push(m@));
        i += 1;
    }
    out
}

/// A message of the user that says `text`.
pub open spec fn user_message(id: Seq<char>, text: Seq<char>, timestamp: u64) -> MessageView {
    MessageView {
        id,
        role: Role::User,
        content: ContentView::Text(text),
        usage: None,
        stop_reason: None,
        timestamp,
        provider: None,
        model: None,
    }
}

impl Message {
    /// A message of the user that says `text`.
    pub fn user(id: String, text: String, timestamp: u64) -> (r: Message)
        ensures
            r@ == user_message(id@, text@, timestamp),
    {
        Message {
            id,
            role: Role::User,
            content: MessageContent::Text(text),
            usage: None,
            stop_reason: None,
            timestamp,
            provider: None,
            model: None,
        }
    }
}

// ---- laws ---------------------------------------------------------------------------------------

/// A message of the user says its text under its id and time, and tells nothing of a provider.
pub proof fn user_messages_say_their_text(id: Seq<char>, t: Seq<char>, timestamp: u64)
    ensures
        ({
            let m = user_message(id, t, timestamp);
            &&& m.id == id && m.timestamp == timestamp
            &&& m.role == Role::User
            &&& m.content == ContentView::Text(t)
            &&& m.usage is None && m.stop_reason is None && m.provider is None && m.model is None
        }),
{
}

/// Lists of messages and of blocks are taken one by one: each keeps its place and its contents,
/// and different contents stay different.
pub proof fn lists_are_taken_one_by_one(
    s: Seq<Message>,
    b: Seq<ContentBlock>,
    i: int,
    x: ContentBlock,
    y: ContentBlock,
)
    ensures
        views(s).len() == s.len(),
        0 <= i < s.len() ==> views(s)[i] == s[i]@,
        block_views(b).len() == b.len(),
        0 <= i < b.len() ==> block_views(b)[i] == b[i]@,
        x matches ContentBlock::Text(t) ==> x@ == BlockView::Text(t@),
        x matches ContentBlock::Thinking(t) ==> x@ == BlockView::Thinking(t@),
        x matches ContentBlock::ToolCall { id, name, arguments } ==> x@ == (BlockView::ToolCall {
            id: id@,
            name: name@,
            arguments: arguments@,
        }),
{
}

} // verus!
