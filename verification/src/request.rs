//! The provider-neutral request, and the HTTP request that an adapter makes of it.

use crate::error::{AiError, AiErrorView};
use crate::json::{JVal, Json};
use crate::model::{Model, ModelView, ThinkingLevel, Usage};
use crate::stream::StreamReader;
use vstd::prelude::*;

verus! {

/// A tool exposed to the model.
#[derive(Debug)]
pub struct ToolSpec {
    pub name: String,
    pub description: String,
    pub input_schema: Json,
}

/// What a `ToolSpec` denotes.
pub struct ToolSpecView {
    pub name: Seq<char>,
    pub description: Seq<char>,
    pub input_schema: JVal,
}

impl View for ToolSpec {
    type V = ToolSpecView;

    open spec fn view(&self) -> ToolSpecView {
        ToolSpecView {
            name: self.name@,
            description: self.description@,
            input_schema: self.input_schema@,
        }
    }
}

impl Clone for ToolSpec {
    fn clone(&self) -> (r: Self)
        ensures
            r@ == self@,
    {
        ToolSpec {
            name: self.name.clone(),
            description: self.description.clone(),
            input_schema: self.input_schema.clone(),
        }
    }
}

/// A part of a message.
#[derive(Debug)]
pub enum Part {
    Text { text: String },
    Thinking { thinking: String },
    ToolCall { id: String, name: String, arguments: String },
    ToolResult { tool_call_id: String, content: String, is_error: bool },
}

/// What a `Part` denotes.
pub enum PartView {
    Text { text: Seq<char> },
    Thinking { thinking: Seq<char> },
    ToolCall { id: Seq<char>, name: Seq<char>, arguments: Seq<char> },
    ToolResult { tool_call_id: Seq<char>, content: Seq<char>, is_error: bool },
}

impl View for Part {
    type V = PartView;

    open spec fn view(&self) -> PartView {
        match self {
            Part::Text { text } => PartView::Text { text: text@ },
            Part::Thinking { thinking } => PartView::Thinking { thinking: thinking@ },
            Part::ToolCall { id, name, arguments } => PartView::ToolCall {
                id: id@,
                name: name@,
                arguments: arguments@,
            },
            Part::ToolResult { tool_call_id, content, is_error } => PartView::ToolResult {
                tool_call_id: tool_call_id@,
                content: content@,
                is_error: *is_error,
            },
        }
    }
}

/// The views of a list of parts.
pub open spec fn part_views(s: Seq<Part>) -> Seq<PartView> {
    s.map_values(|p: Part| p@)
}

/// Who speaks.
#[derive(Debug, Clone, Copy, PartialEq, Eq, Structural)]
pub enum Role {
    User,
    Assistant,
    System,
}

/// A message of the conversation that is sent.
#[derive(Debug)]
pub struct ChatMessage {
    pub role: String,
    pub parts: Vec<Part>,
}

/// What a `ChatMessage` denotes.
pub struct ChatMessageView {
    pub role: Seq<char>,
    pub parts: Seq<PartView>,
}

impl View for ChatMessage {
    type V = ChatMessageView;

    open spec fn view(&self) -> ChatMessageView {
        ChatMessageView { role: self.role@, parts: part_views(self.parts@) }
    }
}

/// The views of a list of messages.
pub open spec fn message_views(s: Seq<ChatMessage>) -> Seq<ChatMessageView> {
    s.map_values(|m: ChatMessage| m@)
}

/// The views of a list of tools.
pub open spec fn tool_views(s: Seq<ToolSpec>) -> Seq<ToolSpecView> {
    s.map_values(|t: ToolSpec| t@)
}

/// A request to a model.
#[derive(Debug)]
pub struct ProviderRequest {
    pub model: Model,
    pub system: String,
    pub messages: Vec<ChatMessage>,
    pub thinking: ThinkingLevel,
    /// max output tokens (provider `max_tokens`)
    pub max_tokens: usize,
    /// tools exposed to the model
    pub tools: Vec<ToolSpec>,
}

/// What a `ProviderRequest` denotes.
pub struct ProviderRequestView {
    pub model: ModelView,
    pub system: Seq<char>,
    pub messages: Seq<ChatMessageView>,
    pub thinking: ThinkingLevel,
    pub max_tokens: usize,
    pub tools: Seq<ToolSpecView>,
}

impl View for ProviderRequest {
    type V = ProviderRequestView;

    open spec fn view(&self) -> ProviderRequestView {
        ProviderRequestView {
            model: self.model@,
            system: self.system@,
            messages: message_views(self.messages@),
            thinking: self.thinking,
            max_tokens: self.max_tokens,
            tools: tool_views(self.tools@),
        }
    }
}

impl ProviderRequest {
    /// A request with medium thinking, 4096 output tokens and no tools.
    pub fn new(model: Model, system: String, messages: Vec<ChatMessage>) -> (r: Self)
        ensures
            r@ == (ProviderRequestView {
                model: model@,
                system: system@,
                messages: message_views(messages@),
                thinking: ThinkingLevel::Medium,
                max_tokens: 4096,
                tools: Seq::empty(),
            }),
    {
        let r = ProviderRequest {
            model,
            system,
            messages,
            thinking: ThinkingLevel::Medium,
            max_tokens: 4096,
            tools: Vec::new(),
        };
        assert(tool_views(r.tools@) =~= Seq::empty());
        r
    }
}

/// A provider's answer.
#[derive(Debug)]
pub enum ProviderResponse {
    /// The reader yields deltas; it must be read to the end for usage.
    Stream(StreamReader),
    /// One-shot answer of a provider that does not stream.
    Done { text: String, thinking: String, usage: Usage },
}

/// A POST request, ready to send.
#[derive(Debug)]
pub struct HttpRequest {
    pub url: String,
    pub headers: Vec<(String, String)>,
    pub body: String,
}

/// What an `HttpRequest` denotes.
pub struct HttpRequestView {
    pub url: Seq<char>,
    pub headers: Seq<(Seq<char>, Seq<char>)>,
    pub body: Seq<char>,
}

impl View for HttpRequest {
    type V = HttpRequestView;

    open spec fn view(&self) -> HttpRequestView {
        HttpRequestView {
            url: self.url@,
            headers: self.headers@.map_values(|h: (String, String)| (h.0@, h.1@)),
            body: self.body@,
        }
    }
}

/// The view of a request or of the error in its place.
pub open spec fn http_view(r: Result<HttpRequest, AiError>) -> Result<
    HttpRequestView,
    AiErrorView,
> {
    match r {
        Ok(h) => Ok(h@),
        Err(e) => Err(e@),
    }
}

// ---- laws ---------------------------------------------------------------------------------------

/// Lists of parts, messages and tools are taken one by one: each keeps its place and its
/// contents.
pub proof fn lists_are_taken_one_by_one(
    parts: Seq<Part>,
    list: Seq<ChatMessage>,
    tools: Seq<ToolSpec>,
    i: int,
)
    ensures
        part_views(parts).len() == parts.len(),
        0 <= i < parts.len() ==> part_views(parts)[i] == parts[i]@,
        message_views(list).len() == list.len(),
        0 <= i < list.len() ==> message_views(list)[i].role == list[i].role@
            && message_views(list)[i].parts.len() == list[i].parts@.len(),
        tool_views(tools).len() == tools.len(),
        0 <= i < tools.len() ==> tool_views(tools)[i] == (ToolSpecView {
            name: tools[i].name@,
            description: tools[i].description@,
            input_schema: tools[i].input_schema@,
        }),
{
}

/// A request that is ready to send is what was made, and an error the one that came.
pub proof fn outcomes_are_kept(h: HttpRequest, e: AiError)
    ensures
        http_view(Ok(h)) == Ok::<HttpRequestView, AiErrorView>(h@),
        http_view(Err(e)) == Err::<HttpRequestView, AiErrorView>(e@),
        h@.url == h.url@ && h@.body == h.body@ && h@.headers.len() == h.headers@.len(),
{
}

} // verus!
