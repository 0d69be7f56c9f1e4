//! OpenAI-compatible adapters.
//!
//! `Chat` (`/chat/completions`) streams `choices[].delta`. `Responses` (`/responses`) is
//! registered but not implemented. `deepseek chat` is the chat adapter against another
//! base URL.

use crate::anthropic;
use crate::error::{AiError, AiErrorView};
use crate::json;
use crate::json::{JVal, Json};
use crate::model;
use crate::model::Usage;
use crate::provider::ApiVariant;
use crate::request;
use crate::request::{
    ChatMessage, ChatMessageView, HttpRequest, HttpRequestView, Part, PartView, ProviderRequest,
    ProviderRequestView, ToolSpec, ToolSpecView,
};
use crate::stream;
use crate::stream::{StopReason, StreamEvent, StreamEventView};
use crate::text;
use vstd::prelude::*;
use vstd::string::*;

verus! {

/// An OpenAI-compatible chat completions endpoint with its credentials.
pub struct OpenAiChatProvider {
    pub base_url: String,
    api_key: String,
}

/// An OpenAI Responses endpoint; reserved until the adapter is implemented.
pub struct OpenAiResponsesProvider {
    pub base_url: String,
    api_key: String,
}

/// A registered vendor and API that is not implemented yet; fails when it is called.
pub struct PendingProvider {
    pub vendor: &'static str,
    pub api: ApiVariant,
}

/// A URL with a key: what both OpenAI providers denote.
pub struct EndpointView {
    pub base_url: Seq<char>,
    pub api_key: Seq<char>,
}

impl View for OpenAiChatProvider {
    type V = EndpointView;

    closed spec fn view(&self) -> EndpointView {
        EndpointView { base_url: self.base_url@, api_key: self.api_key@ }
    }
}

impl View for OpenAiResponsesProvider {
    type V = EndpointView;

    closed spec fn view(&self) -> EndpointView {
        EndpointView { base_url: self.base_url@, api_key: self.api_key@ }
    }
}

impl OpenAiChatProvider {
    /// A provider for the given URL and key.
    pub fn new(base_url: String, api_key: String) -> (r: Self)
        ensures
            r@ == (EndpointView { base_url: base_url@, api_key: api_key@ }),
    {
        OpenAiChatProvider { base_url, api_key }
    }

    /// The HTTP request for `req`; an error where no key is configured.
    pub fn chat_request(&self, req: &ProviderRequest) -> (r: Result<HttpRequest, AiError>)
        ensures
            request::http_view(r) == chat_http(self@, req@),
    {
        if self.api_key.as_str().is_empty() {
            return Err(anthropic::no_key_error());
        }
        let body = json::render(&chat_body(req));
        let mut headers: Vec<(String, String)> = Vec::new();
        headers.push(("Authorization".to_owned(), text::cat("Bearer ", self.api_key.as_str())));
        headers.push(("content-type".to_owned(), "application/json".to_owned()));
        let r = HttpRequest { url: self.base_url.clone(), headers, body };
        assert(r@.headers =~= chat_headers(self@));
        Ok(r)
    }
}

impl OpenAiResponsesProvider {
    /// A provider for the given URL and key.
    pub fn new(base_url: String, api_key: String) -> (r: Self)
        ensures
            r@ == (EndpointView { base_url: base_url@, api_key: api_key@ }),
    {
        OpenAiResponsesProvider { base_url, api_key }
    }

    /// Always an error: the API is not implemented.
    pub fn chat_request(&self, req: &ProviderRequest) -> (r: Result<HttpRequest, AiError>)
        ensures
            request::http_view(r) == responses_http(),
    {
        Err(AiError::Other("OpenAI Responses API 尚未实现；请使用 'openai chat'".to_owned()))
    }
}

impl PendingProvider {
    /// Always an error: the API is not implemented.
    pub fn chat_request(&self, req: &ProviderRequest) -> (r: Result<HttpRequest, AiError>)
        ensures
            request::http_view(r) == pending_http(self.vendor@, self.api),
    {
        let mut m = text::cat("服务商 '", self.vendor);
        m.append(" ");
        m.append(self.api.word());
        m.append("' 已注册但尚未实现");
        Err(AiError::Other(m))
    }
}

/// The headers of every chat request.
pub open spec fn chat_headers(p: EndpointView) -> Seq<(Seq<char>, Seq<char>)> {
    seq![("Authorization"@, "Bearer "@ + p.api_key), ("content-type"@, "application/json"@)]
}

/// The HTTP request that the chat provider sends.
pub open spec fn chat_http(p: EndpointView, req: ProviderRequestView) -> Result<
    HttpRequestView,
    AiErrorView,
> {
    if p.api_key.len() == 0 {
        Err(anthropic::no_key())
    } else {
        Ok(
            HttpRequestView {
                url: p.base_url,
                headers: chat_headers(p),
                body: json::rendered(completion_body(req)),
            },
        )
    }
}

/// The answer of the Responses provider.
pub open spec fn responses_http() -> Result<HttpRequestView, AiErrorView> {
    Err(AiErrorView::Other("OpenAI Responses API 尚未实现；请使用 'openai chat'"@))
}

/// The answer of a vendor and API that is not implemented.
pub open spec fn pending_http(vendor: Seq<char>, api: ApiVariant) -> Result<
    HttpRequestView,
    AiErrorView,
> {
    Err(AiErrorView::Other("服务商 '"@ + vendor + " "@ + api.name() + "' 已注册但尚未实现"@))
}

// ---- request body -------------------------------------------------------------------------

/// The texts of the parts that carry text, in order.
pub open spec fn part_texts(parts: Seq<PartView>) -> Seq<Seq<char>>
    decreases parts.len(),
{
    if parts.len() == 0 {
        Seq::empty()
    } else {
        let rest = part_texts(parts.drop_last());
        match parts.last() {
            PartView::Text { text } => rest.push(text),
            PartView::Thinking { thinking } => rest.push(thinking),
            PartView::ToolResult { content, .. } => rest.push(content),
            PartView::ToolCall { .. } => rest,
        }
    }
}

/// A tool call as the API wants it.
pub open spec fn call_block(id: Seq<char>, name: Seq<char>, arguments: Seq<char>) -> JVal {
    JVal::Object(
        map![
            "id"@ => JVal::Str(id),
            "type"@ => JVal::Str("function"@),
            "function"@ => JVal::Object(
                map!["name"@ => JVal::Str(name), "arguments"@ => JVal::Str(arguments)],
            ),
        ],
    )
}

/// The tool calls among the parts, in order.
pub open spec fn part_calls(parts: Seq<PartView>) -> Seq<JVal>
    decreases parts.len(),
{
    if parts.len() == 0 {
        Seq::empty()
    } else {
        let rest = part_calls(parts.drop_last());
        match parts.last() {
            PartView::ToolCall { id, name, arguments } => rest.push(
                call_block(id, name, arguments),
            ),
            _ => rest,
        }
    }
}

/// The call that the last tool result among the parts answers, and whether it failed.
pub open spec fn last_result(parts: Seq<PartView>) -> Option<(Seq<char>, bool)>
    decreases parts.len(),
{
    if parts.len() == 0 {
        None
    } else {
        match parts.last() {
            PartView::ToolResult { tool_call_id, is_error, .. } => Some((tool_call_id, is_error)),
            _ => last_result(parts.drop_last()),
        }
    }
}

/// A message as the API wants it: a tool message where a part is a tool result, an
/// assistant message where a part is a tool call, else a plain message.
pub open spec fn completion_message(m: ChatMessageView) -> JVal {
    let content = text::joined(part_texts(m.parts), "\n"@);
    let calls = part_calls(m.parts);
    match last_result(m.parts) {
        Some((id, failed)) => JVal::Object(
            map![
                "role"@ => JVal::Str("tool"@),
                "tool_call_id"@ => JVal::Str(id),
                "content"@ => JVal::Str(if failed { "[error]\n"@ + content } else { content }),
            ],
        ),
        None => if calls.len() > 0 {
            JVal::Object(
                map![
                    "role"@ => JVal::Str("assistant"@),
                    "content"@ => JVal::Str(content),
                    "tool_calls"@ => JVal::Array(calls),
                ],
            )
        } else {
            JVal::Object(map!["role"@ => JVal::Str(m.role), "content"@ => JVal::Str(content)])
        },
    }
}

/// A tool as the API wants it.
pub open spec fn function_block(t: ToolSpecView) -> JVal {
    JVal::Object(
        map![
            "type"@ => JVal::Str("function"@),
            "function"@ => JVal::Object(
                map![
                    "name"@ => JVal::Str(t.name),
                    "description"@ => JVal::Str(t.description),
                    "parameters"@ => t.input_schema,
                ],
            ),
        ],
    )
}

/// The message that carries the system prompt, where there is one.
pub open spec fn system_messages(system: Seq<char>) -> Seq<JVal> {
    if system.len() > 0 {
        seq![
            JVal::Object(map!["role"@ => JVal::Str("system"@), "content"@ => JVal::Str(system)]),
        ]
    } else {
        Seq::empty()
    }
}

/// The messages as the API wants them: the system prompt first, then the conversation.
pub open spec fn completion_messages(req: ProviderRequestView) -> Seq<JVal> {
    system_messages(req.system) + req.messages.map_values(
        |m: ChatMessageView| completion_message(m),
    )
}

/// The request body: `tools` only where there are tools.
pub open spec fn completion_body(req: ProviderRequestView) -> JVal {
    let base = map![
        "model"@ => JVal::Str(req.model.id),
        "messages"@ => JVal::Array(completion_messages(req)),
        "stream"@ => JVal::Bool(true),
        "max_tokens"@ => JVal::UInt(req.max_tokens as u64),
    ];
    JVal::Object(
        if req.tools.len() > 0 {
            base.insert(
                "tools"@,
                JVal::Array(req.tools.map_values(|t: ToolSpecView| function_block(t))),
            )
        } else {
            base
        },
    )
}

fn message_of(m: &ChatMessage) -> (r: Json)
    ensures
        r@ == completion_message(m@),
{
    let mut content: Vec<String> = Vec::new();
    let mut tool_calls: Vec<Json> = Vec::new();
    let mut result: Option<(String, bool)> = None;
    let ghost parts = m@.parts;
    let mut i: usize = 0;
    assert(parts.take(0) =~= Seq::<PartView>::empty());
    assert(text::strs(content@) =~= Seq::<Seq<char>>::empty());
    assert(json::items_view(tool_calls@) =~= Seq::<JVal>::empty());
    while i < m.parts.len()
        invariant
            i <= m.parts@.len(),
            parts == m@.parts,
            text::strs(content@) == part_texts(parts.take(i as int)),
            json::items_view(tool_calls@) == part_calls(parts.take(i as int)),
            tool_calls@.len() == part_calls(parts.take(i as int)).len(),
            result_view(result) == last_result(parts.take(i as int)),
        decreases m.parts@.len() - i,
    {
        proof {
            assert(parts.take(i + 1).drop_last() =~= parts.take(i as int));
            assert(parts.take(i + 1).last() == m.parts@[i as int]@);
        }
        let ghost before = content@;
        match &m.parts[i] {
            Part::Text { text } => {
                content.push(text.clone());
                assert(text::strs(content@) =~= text::strs(before).push(text@));
            },
            Part::Thinking { thinking } => {
                content.push(thinking.clone());
                assert(text::strs(content@) =~= text::strs(before).push(thinking@));
            },
            Part::ToolCall { id, name, arguments } => {
                let call = Json::object().with("id", Json::of_str(id.as_str())).with(
                    "type",
                    Json::of_str("function"),
                ).with(
                    "function",
                    Json::object().with("name", Json::of_str(name.as_str())).with(
                        "arguments",
                        Json::of_str(arguments.as_str()),
                    ),
                );
                proof {
                    json::lemma_items_push(tool_calls@, call);
                }
                tool_calls.push(call);
            },
            Part::ToolResult { tool_call_id, content: text, is_error } => {
                result = Some((tool_call_id.clone(), *is_error));
                content.push(text.clone());
                assert(text::strs(content@) =~= text::strs(before).push(text@));
            },
        }
        i += 1;
    }
    assert(parts.take(parts.len() as int) =~= parts);
    let joined = text::join(&content, "\n");
    match result {
        Some((id, failed)) => {
            let shown = if failed {
                text::cat("[error]\n", joined.as_str())
            } else {
                joined
            };
            Json::object().with("role", Json::of_str("tool")).with(
                "tool_call_id",
                Json::of_str(id.as_str()),
            ).with("content", Json::of_str(shown.as_str()))
        },
        None => {
            if tool_calls.len() > 0 {
                Json::object().with("role", Json::of_str("assistant")).with(
                    "content",
                    Json::of_str(joined.as_str()),
                ).with("tool_calls", Json::array(tool_calls))
            } else {
                Json::object().with("role", Json::of_str(m.role.as_str())).with(
                    "content",
                    Json::of_str(joined.as_str()),
                )
            }
        },
    }
}

spec fn result_view(r: Option<(String, bool)>) -> Option<(Seq<char>, bool)> {
    match r {
        Some((id, failed)) => Some((id@, failed)),
        None => None,
    }
}

fn function_of(t: &ToolSpec) -> (r: Json)
    ensures
        r@ == function_block(t@),
{
    Json::object().with("type", Json::of_str("function")).with(
        "function",
        Json::object().with("name", Json::of_str(t.name.as_str())).with(
            "description",
            Json::of_str(t.description.as_str()),
        ).with("parameters", t.input_schema.clone()),
    )
}

/// Builds the `/chat/completions` request body from a neutral request.
pub fn chat_body(req: &ProviderRequest) -> (r: Json)
    ensures
        r@ == completion_body(req@),
{
    let ghost want = req@.messages.map_values(|m: ChatMessageView| completion_message(m));
    let ghost first = system_messages(req@.system);
    let mut messages: Vec<Json> = Vec::new();
    assert(json::items_view(messages@) =~= Seq::<JVal>::empty());
    if !req.system.as_str().is_empty() {
        let b = Json::object().with("role", Json::of_str("system")).with(
            "content",
            Json::of_str(req.system.as_str()),
        );
        proof {
            json::lemma_items_push(messages@, b);
            assert(b@->Object_0 =~= first[0]->Object_0);
        }
        messages.push(b);
    }
    assert(json::items_view(messages@) =~= first);
    let mut i: usize = 0;
    assert(first + want.take(0) =~= first);
    while i < req.messages.len()
        invariant
            i <= req.messages@.len(),
            want == req@.messages.map_values(|m: ChatMessageView| completion_message(m)),
            json::items_view(messages@) == first + want.take(i as int),
        decreases req.messages@.len() - i,
    {
        let b = message_of(&req.messages[i]);
        proof {
            json::lemma_items_push(messages@, b);
            assert(first + want.take(i + 1) =~= (first + want.take(i as int)).push(b@));
        }
        messages.push(b);
        i += 1;
    }
    assert(want.take(req.messages@.len() as int) =~= want);
    let ghost want_tools = req@.tools.map_values(|t: ToolSpecView| function_block(t));
    let mut tools: Vec<Json> = Vec::new();
    let mut k: usize = 0;
    assert(want_tools.take(0) =~= Seq::<JVal>::empty());
    while k < req.tools.len()
        invariant
            k <= req.tools@.len(),
            want_tools == req@.tools.map_values(|t: ToolSpecView| function_block(t)),
            json::items_view(tools@) == want_tools.take(k as int),
            tools@.len() == k,
        decreases req.tools@.len() - k,
    {
        let b = function_of(&req.tools[k]);
        proof {
            json::lemma_items_push(tools@, b);
            assert(want_tools.take(k + 1) =~= want_tools.take(k as int).push(b@));
        }
        tools.push(b);
        k += 1;
    }
    assert(want_tools.take(req.tools@.len() as int) =~= want_tools);
    let body = Json::object().with("model", Json::of_str(req.model.id.as_str())).with(
        "messages",
        Json::array(messages),
    ).with("stream", Json::Bool(true)).with("max_tokens", Json::UInt(req.max_tokens as u64));
    if tools.len() > 0 {
        body.with("tools", Json::array(tools))
    } else {
        body
    }
}

// ---- chunks -----------------------------------------------------------------------------------

/// Whether the value can stand for a record of `n` fields: an object, or an array of at
/// most `n` items, which give the fields in order.
pub open spec fn is_record(v: JVal, n: nat) -> bool {
    match v {
        JVal::Object(_) => true,
        JVal::Array(s) => s.len() <= n,
        _ => false,
    }
}

/// The field of a record, by its name or its place.
pub open spec fn record_field(v: JVal, key: Seq<char>, at: int) -> Option<JVal> {
    match v {
        JVal::Array(s) => if at < s.len() {
            Some(s[at])
        } else {
            None
        },
        _ => json::member(v, key),
    }
}

/// An optional string field: `None` where the field holds something else.
pub open spec fn optional_text(o: Option<JVal>) -> Option<Option<Seq<char>>> {
    match o {
        None => Some(None),
        Some(JVal::Null) => Some(None),
        Some(JVal::Str(t)) => Some(Some(t)),
        _ => None,
    }
}

/// The function part of a tool call fragment.
pub struct FnDeltaView {
    pub name: Option<Seq<char>>,
    pub arguments: Option<Seq<char>>,
}

/// A tool call fragment.
pub struct ToolDeltaView {
    pub index: usize,
    pub id: Option<Seq<char>>,
    pub function: Option<FnDeltaView>,
}

/// The news in a choice.
pub struct DeltaView {
    pub content: Option<Seq<char>>,
    pub tool_calls: Option<Seq<ToolDeltaView>>,
}

/// A choice of a chunk.
pub struct ChoiceView {
    pub delta: DeltaView,
    pub finish_reason: Option<Seq<char>>,
}

/// A chunk of the stream.
pub struct ChunkView {
    pub choices: Seq<ChoiceView>,
    pub usage: Option<JVal>,
}

/// The function part that a value stands for.
pub open spec fn decoded_function(v: JVal) -> Option<FnDeltaView> {
    if !is_record(v, 2) {
        None
    } else {
        match (
            optional_text(record_field(v, "name"@, 0)),
            optional_text(record_field(v, "arguments"@, 1)),
        ) {
            (Some(name), Some(arguments)) => Some(FnDeltaView { name, arguments }),
            _ => None,
        }
    }
}

/// The optional function part of a fragment.
pub open spec fn decoded_opt_function(o: Option<JVal>) -> Option<Option<FnDeltaView>> {
    match o {
        None => Some(None),
        Some(JVal::Null) => Some(None),
        Some(v) => match decoded_function(v) {
            Some(f) => Some(Some(f)),
            None => None,
        },
    }
}

/// The fragment that a value stands for.
pub open spec fn decoded_tool(v: JVal) -> Option<ToolDeltaView> {
    if !is_record(v, 3) {
        None
    } else {
        match (
            record_field(v, "index"@, 0),
            optional_text(record_field(v, "id"@, 1)),
            decoded_opt_function(record_field(v, "function"@, 2)),
        ) {
            (Some(JVal::UInt(n)), Some(id), Some(function)) => if n <= usize::MAX {
                Some(ToolDeltaView { index: n as usize, id, function })
            } else {
                None
            },
            _ => None,
        }
    }
}

/// The fragments that a list of values stands for.
pub open spec fn decoded_tools(s: Seq<JVal>) -> Option<Seq<ToolDeltaView>>
    decreases s.len(),
{
    if s.len() == 0 {
        Some(Seq::empty())
    } else {
        match (decoded_tools(s.drop_last()), decoded_tool(s.last())) {
            (Some(rest), Some(t)) => Some(rest.push(t)),
            _ => None,
        }
    }
}

/// The optional list of fragments of a delta.
pub open spec fn decoded_opt_tools(o: Option<JVal>) -> Option<Option<Seq<ToolDeltaView>>> {
    match o {
        None => Some(None),
        Some(JVal::Null) => Some(None),
        Some(JVal::Array(s)) => match decoded_tools(s) {
            Some(l) => Some(Some(l)),
            None => None,
        },
        _ => None,
    }
}

/// The delta that a value stands for.
pub open spec fn decoded_delta(v: JVal) -> Option<DeltaView> {
    if !is_record(v, 2) {
        None
    } else {
        match (
            optional_text(record_field(v, "content"@, 0)),
            decoded_opt_tools(record_field(v, "tool_calls"@, 1)),
        ) {
            (Some(content), Some(tool_calls)) => Some(DeltaView { content, tool_calls }),
            _ => None,
        }
    }
}

/// The choice that a value stands for.
pub open spec fn decoded_choice(v: JVal) -> Option<ChoiceView> {
    if !is_record(v, 2) {
        None
    } else {
        match record_field(v, "delta"@, 0) {
            Some(d) => match (
                decoded_delta(d),
                optional_text(record_field(v, "finish_reason"@, 1)),
            ) {
                (Some(delta), Some(finish_reason)) => Some(ChoiceView { delta, finish_reason }),
                _ => None,
            },
            None => None,
        }
    }
}

/// The choices that a list of values stands for.
pub open spec fn decoded_choices(s: Seq<JVal>) -> Option<Seq<ChoiceView>>
    decreases s.len(),
{
    if s.len() == 0 {
        Some(Seq::empty())
    } else {
        match (decoded_choices(s.drop_last()), decoded_choice(s.last())) {
            (Some(rest), Some(c)) => Some(rest.push(c)),
            _ => None,
        }
    }
}

/// The chunk that a value stands for; `None` where a field is missing or of another type.
pub open spec fn decoded_chunk(v: JVal) -> Option<ChunkView> {
    if !is_record(v, 2) {
        None
    } else {
        match record_field(v, "choices"@, 0) {
            Some(JVal::Array(s)) => match decoded_choices(s) {
                Some(choices) => Some(
                    ChunkView {
                        choices,
                        usage: match record_field(v, "usage"@, 1) {
                            Some(JVal::Null) => None,
                            other => other,
                        },
                    },
                ),
                None => None,
            },
            _ => None,
        }
    }
}

struct FnDelta {
    name: Option<String>,
    arguments: Option<String>,
}

impl View for FnDelta {
    type V = FnDeltaView;

    closed spec fn view(&self) -> FnDeltaView {
        FnDeltaView { name: text::opt_str(self.name), arguments: text::opt_str(self.arguments) }
    }
}

struct ToolDelta {
    index: usize,
    id: Option<String>,
    function: Option<FnDelta>,
}

impl View for ToolDelta {
    type V = ToolDeltaView;

    closed spec fn view(&self) -> ToolDeltaView {
        ToolDeltaView {
            index: self.index,
            id: text::opt_str(self.id),
            function: match self.function {
                Some(f) => Some(f@),
                None => None,
            },
        }
    }
}

struct Delta {
    content: Option<String>,
    tool_calls: Option<Vec<ToolDelta>>,
}

spec fn tool_delta_views(s: Seq<ToolDelta>) -> Seq<ToolDeltaView> {
    s.map_values(|t: ToolDelta| t@)
}

impl View for Delta {
    type V = DeltaView;

    closed spec fn view(&self) -> DeltaView {
        DeltaView {
            content: text::opt_str(self.content),
            tool_calls: match self.tool_calls {
                Some(l) => Some(tool_delta_views(l@)),
                None => None,
            },
        }
    }
}

struct Choice {
    delta: Delta,
    finish_reason: Option<String>,
}

impl View for Choice {
    type V = ChoiceView;

    closed spec fn view(&self) -> ChoiceView {
        ChoiceView { delta: self.delta@, finish_reason: text::opt_str(self.finish_reason) }
    }
}

struct Chunk {
    choices: Vec<Choice>,
    usage: Option<Json>,
}

spec fn choice_views(s: Seq<Choice>) -> Seq<ChoiceView> {
    s.map_values(|c: Choice| c@)
}

impl View for Chunk {
    type V = ChunkView;

    closed spec fn view(&self) -> ChunkView {
        ChunkView {
            choices: choice_views(self.choices@),
            usage: match self.usage {
                Some(u) => Some(u@),
                None => None,
            },
        }
    }
}

spec fn opt_view<T: View>(o: Option<T>) -> Option<T::V> {
    match o {
        Some(x) => Some(x@),
        None => None,
    }
}

fn record(v: &Json, n: usize) -> (r: bool)
    ensures
        r == is_record(v@, n as nat),
{
    match v {
        Json::Object(_) => true,
        Json::Array(s) => {
            proof {
                json::lemma_items_view(s@);
            }
            s.len() <= n
        },
        _ => false,
    }
}

fn field<'a>(v: &'a Json, key: &str, at: usize) -> (r: Option<&'a Json>)
    ensures
        json::opt_json(r) == record_field(v@, key@, at as int),
{
    match v {
        Json::Array(s) => {
            proof {
                json::lemma_items_view(s@);
            }
            if at < s.len() {
                Some(&s[at])
            } else {
                None
            }
        },
        _ => v.get(key),
    }
}

fn text_field(v: &Json, key: &str, at: usize) -> (r: Option<Option<String>>)
    ensures
        (match r {
            Some(t) => Some(text::opt_str(t)),
            None => None,
        }) == optional_text(record_field(v@, key@, at as int)),
{
    match field(v, key, at) {
        None => Some(None),
        Some(Json::Null) => Some(None),
        Some(Json::Str(t)) => Some(Some(t.clone())),
        _ => None,
    }
}

fn function_from(v: &Json) -> (r: Option<FnDelta>)
    ensures
        opt_view(r) == decoded_function(v@),
{
    if !record(v, 2) {
        return None;
    }
    match (text_field(v, "name", 0), text_field(v, "arguments", 1)) {
        (Some(name), Some(arguments)) => Some(FnDelta { name, arguments }),
        _ => None,
    }
}

fn tool_from(v: &Json) -> (r: Option<ToolDelta>)
    ensures
        opt_view(r) == decoded_tool(v@),
{
    if !record(v, 3) {
        return None;
    }
    let index = match field(v, "index", 0) {
        Some(Json::UInt(n)) => {
            if *n > usize::MAX as u64 {
                return None;
            }
            *n as usize
        },
        _ => {
            return None;
        },
    };
    let id = match text_field(v, "id", 1) {
        Some(id) => id,
        None => {
            return None;
        },
    };
    let function = match field(v, "function", 2) {
        None => None,
        Some(Json::Null) => None,
        Some(f) => match function_from(f) {
            Some(f) => Some(f),
            None => {
                return None;
            },
        },
    };
    Some(ToolDelta { index, id, function })
}

/// A list that does not decode up to some place does not decode at all.
proof fn lemma_tools_prefix(s: Seq<JVal>, i: int)
    requires
        0 <= i <= s.len(),
        decoded_tools(s.take(i)) is None,
    ensures
        decoded_tools(s) is None,
    decreases s.len() - i,
{
    if i < s.len() {
        assert(s.take(i + 1).drop_last() =~= s.take(i));
        lemma_tools_prefix(s, i + 1);
    } else {
        assert(s.take(i) =~= s);
    }
}

fn tools_from(v: &Vec<Json>) -> (r: Option<Vec<ToolDelta>>)
    ensures
        (match r {
            Some(l) => Some(tool_delta_views(l@)),
            None => None,
        }) == decoded_tools(json::items_view(v@)),
{
    let mut out: Vec<ToolDelta> = Vec::new();
    let ghost s = json::items_view(v@);
    proof {
        json::lemma_items_view(v@);
        assert(s.take(0) =~= Seq::<JVal>::empty());
        assert(tool_delta_views(out@) =~= Seq::<ToolDeltaView>::empty());
    }
    let mut i: usize = 0;
    while i < v.len()
        invariant
            i <= v@.len(),
            s == json::items_view(v@),
            s.len() == v@.len(),
            decoded_tools(s.take(i as int)) == Some(tool_delta_views(out@)),
        decreases v@.len() - i,
    {
        proof {
            json::lemma_items_view(v@);
            assert(s.take(i + 1).drop_last() =~= s.take(i as int));
            assert(s.take(i + 1).last() == v@[i as int]@);
        }
        match tool_from(&v[i]) {
            Some(t) => {
                let ghost before = out@;
                out.push(t);
                assert(tool_delta_views(out@) =~= tool_delta_views(before).push(t@));
            },
            None => {
                proof {
                    lemma_tools_prefix(s, i + 1);
                }
                return None;
            },
        }
        i += 1;
    }
    assert(s.take(s.len() as int) =~= s);
    Some(out)
}

fn delta_from(v: &Json) -> (r: Option<Delta>)
    ensures
        opt_view(r) == decoded_delta(v@),
{
    if !record(v, 2) {
        return None;
    }
    let content = match text_field(v, "content", 0) {
        Some(t) => t,
        None => {
            return None;
        },
    };
    let tool_calls = match field(v, "tool_calls", 1) {
        None => None,
        Some(Json::Null) => None,
        Some(Json::Array(s)) => match tools_from(s) {
            Some(l) => Some(l),
            None => {
                return None;
            },
        },
        _ => {
            return None;
        },
    };
    Some(Delta { content, tool_calls })
}

fn choice_from(v: &Json) -> (r: Option<Choice>)
    ensures
        opt_view(r) == decoded_choice(v@),
{
    if !record(v, 2) {
        return None;
    }
    let delta = match field(v, "delta", 0) {
        Some(d) => match delta_from(d) {
            Some(delta) => delta,
            None => {
                return None;
            },
        },
        None => {
            return None;
        },
    };
    match text_field(v, "finish_reason", 1) {
        Some(finish_reason) => Some(Choice { delta, finish_reason }),
        None => None,
    }
}

/// A list that does not decode up to some place does not decode at all.
proof fn lemma_choices_prefix(s: Seq<JVal>, i: int)
    requires
        0 <= i <= s.len(),
        decoded_choices(s.take(i)) is None,
    ensures
        decoded_choices(s) is None,
    decreases s.len() - i,
{
    if i < s.len() {
        assert(s.take(i + 1).drop_last() =~= s.take(i));
        lemma_choices_prefix(s, i + 1);
    } else {
        assert(s.take(i) =~= s);
    }
}

fn choices_from(v: &Vec<Json>) -> (r: Option<Vec<Choice>>)
    ensures
        (match r {
            Some(l) => Some(choice_views(l@)),
            None => None,
        }) == decoded_choices(json::items_view(v@)),
{
    let mut out: Vec<Choice> = Vec::new();
    let ghost s = json::items_view(v@);
    proof {
        json::lemma_items_view(v@);
        assert(s.take(0) =~= Seq::<JVal>::empty());
        assert(choice_views(out@) =~= Seq::<ChoiceView>::empty());
    }
    let mut i: usize = 0;
    while i < v.len()
        invariant
            i <= v@.len(),
            s == json::items_view(v@),
            s.len() == v@.len(),
            decoded_choices(s.take(i as int)) == Some(choice_views(out@)),
        decreases v@.len() - i,
    {
        proof {
            json::lemma_items_view(v@);
            assert(s.take(i + 1).drop_last() =~= s.take(i as int));
            assert(s.take(i + 1).last() == v@[i as int]@);
        }
        match choice_from(&v[i]) {
            Some(c) => {
                let ghost before = out@;
                out.push(c);
                assert(choice_views(out@) =~= choice_views(before).push(c@));
            },
            None => {
                proof {
                    lemma_choices_prefix(s, i + 1);
                }
                return None;
            },
        }
        i += 1;
    }
    assert(s.take(s.len() as int) =~= s);
    Some(out)
}

fn chunk_from(v: &Json) -> (r: Option<Chunk>)
    ensures
        opt_view(r) == decoded_chunk(v@),
{
    if !record(v, 2) {
        return None;
    }
    let choices = match field(v, "choices", 0) {
        Some(Json::Array(s)) => match choices_from(s) {
            Some(l) => l,
            None => {
                return None;
            },
        },
        _ => {
            return None;
        },
    };
    let usage = match field(v, "usage", 1) {
        None => None,
        Some(Json::Null) => None,
        Some(u) => Some(u.clone()),
    };
    Some(Chunk { choices, usage })
}

// ---- events -------------------------------------------------------------------------------------

/// What the chunk stream has told so far: token counts, the stop reason, the id and name of
/// each tool call by index, and the call whose arguments are being streamed.
pub struct ChatParserView {
    pub input: u64,
    pub output: u64,
    pub total: u64,
    pub stop: StopReason,
    pub saw_stop: bool,
    pub slots: Seq<(Seq<char>, Seq<char>)>,
    pub current: Option<usize>,
}

/// A parser's state with the events emitted on the way to it.
pub struct ChatStep {
    pub p: ChatParserView,
    pub out: Seq<StreamEventView>,
}

/// The step with one more event.
pub open spec fn emit(s: ChatStep, e: StreamEventView) -> ChatStep {
    ChatStep { out: s.out.push(e), ..s }
}

/// The slots, filled up with empty ones so that `index` is among them.
pub open spec fn grown(slots: Seq<(Seq<char>, Seq<char>)>, index: usize) -> Seq<
    (Seq<char>, Seq<char>),
> {
    if index < slots.len() {
        slots
    } else {
        slots + Seq::new((index + 1 - slots.len()) as nat, |i: int| (Seq::empty(), Seq::empty()))
    }
}

/// The step after a tool call fragment. Id and name are remembered; non-empty arguments are
/// emitted, behind a start event where the fragment belongs to another call than the one
/// before.
pub open spec fn on_tool(s: ChatStep, t: ToolDeltaView) -> ChatStep {
    let slots = grown(s.p.slots, t.index);
    let old_slot = slots[t.index as int];
    let id = match t.id {
        Some(id) => id,
        None => old_slot.0,
    };
    let name = match t.function {
        Some(FnDeltaView { name: Some(name), .. }) => name,
        _ => old_slot.1,
    };
    let noted = ChatStep {
        p: ChatParserView { slots: slots.update(t.index as int, (id, name)), ..s.p },
        ..s
    };
    match t.function {
        Some(FnDeltaView { arguments: Some(a), .. }) => if a.len() == 0 {
            noted
        } else {
            let started = if noted.p.current == Some(t.index) {
                noted
            } else {
                emit(
                    ChatStep {
                        p: ChatParserView { current: Some(t.index), ..noted.p },
                        ..noted
                    },
                    StreamEventView::ToolCallStarted { id, name },
                )
            };
            emit(started, StreamEventView::ToolCallArgsDelta { id, delta: a })
        },
        _ => noted,
    }
}

/// The step after a list of fragments.
pub open spec fn on_tools(s: ChatStep, l: Seq<ToolDeltaView>) -> ChatStep
    decreases l.len(),
{
    if l.len() == 0 {
        s
    } else {
        on_tool(on_tools(s, l.drop_last()), l.last())
    }
}

/// The stop reason that the API's word names; unknown words count as a plain stop.
pub open spec fn chat_stop(word: Seq<char>) -> StopReason {
    if word == "length"@ {
        StopReason::Length
    } else if word == "tool_calls"@ {
        StopReason::ToolUse
    } else {
        StopReason::Stop
    }
}

/// The step after a finish reason: usage, where any is known, and then the end. Whether any
/// is known is read off the sum of the counts, which wraps around at 2^64.
pub open spec fn on_finish(s: ChatStep, word: Seq<char>) -> ChatStep {
    let p = ChatParserView { stop: chat_stop(word), saw_stop: true, ..s.p };
    let t = ChatStep { p, ..s };
    let with_usage = if model::wrapped_sum(model::wrapped_sum(p.input, p.output), p.total) > 0 {
        emit(
            t,
            StreamEventView::Usage {
                usage: Usage {
                    input: p.input,
                    output: p.output,
                    cache_read: 0,
                    cache_write: 0,
                    total: p.total,
                },
            },
        )
    } else {
        t
    };
    emit(with_usage, StreamEventView::Done { stop_reason: p.stop })
}

/// The step after a choice: its text where not empty, its fragments, its finish reason.
pub open spec fn on_choice(s: ChatStep, c: ChoiceView) -> ChatStep {
    let with_text = match c.delta.content {
        Some(t) => if t.len() > 0 {
            emit(s, StreamEventView::TextDelta { delta: t })
        } else {
            s
        },
        None => s,
    };
    let with_tools = match c.delta.tool_calls {
        Some(l) => on_tools(with_text, l),
        None => with_text,
    };
    match c.finish_reason {
        Some(word) => on_finish(with_tools, word),
        None => with_tools,
    }
}

/// The step after a list of choices.
pub open spec fn on_choices(s: ChatStep, l: Seq<ChoiceView>) -> ChatStep
    decreases l.len(),
{
    if l.len() == 0 {
        s
    } else {
        on_choice(on_choices(s, l.drop_last()), l.last())
    }
}

/// The state with the token counts of a `usage` member.
pub open spec fn with_counts(p: ChatParserView, usage: Option<JVal>) -> ChatParserView {
    match usage {
        Some(u) => ChatParserView {
            input: json::uint_or_zero(json::member(u, "prompt_tokens"@)),
            output: json::uint_or_zero(json::member(u, "completion_tokens"@)),
            total: json::uint_or_zero(json::member(u, "total_tokens"@)),
            ..p
        },
        None => p,
    }
}

/// The step from a state over a chunk; a value that is no chunk changes nothing.
pub open spec fn chunk_step(p: ChatParserView, v: JVal) -> ChatStep {
    match decoded_chunk(v) {
        Some(c) => on_choices(
            ChatStep { p: with_counts(p, c.usage), out: Seq::empty() },
            c.choices,
        ),
        None => ChatStep { p, out: Seq::empty() },
    }
}

/// The step from a state over a payload. `[DONE]` ends the stream where no finish reason
/// did; blank payloads and those that are no chunks change nothing.
pub open spec fn chat_step(p: ChatParserView, line: Seq<char>) -> ChatStep {
    let l = text::trimmed(line);
    let still = ChatStep { p, out: Seq::empty() };
    if l.len() == 0 {
        still
    } else if l == "[DONE]"@ {
        if p.saw_stop {
            still
        } else {
            emit(still, StreamEventView::Done { stop_reason: p.stop })
        }
    } else {
        match json::parsed(l) {
            Ok(v) => chunk_step(p, v),
            Err(_) => still,
        }
    }
}

/// Aggregates `chat.completion.chunk` events into stream events.
pub struct ChatCompletionsParser {
    input: u64,
    output: u64,
    total: u64,
    stop: StopReason,
    saw_stop: bool,
    tool_calls: Vec<(String, String)>,
    current_idx: Option<usize>,
}

impl View for ChatCompletionsParser {
    type V = ChatParserView;

    closed spec fn view(&self) -> ChatParserView {
        ChatParserView {
            input: self.input,
            output: self.output,
            total: self.total,
            stop: self.stop,
            saw_stop: self.saw_stop,
            slots: slot_views(self.tool_calls@),
            current: self.current_idx,
        }
    }
}

/// The state before any payload.
pub open spec fn chat_start() -> ChatParserView {
    ChatParserView {
        input: 0,
        output: 0,
        total: 0,
        stop: StopReason::Stop,
        saw_stop: false,
        slots: Seq::empty(),
        current: None,
    }
}

spec fn slot_views(s: Seq<(String, String)>) -> Seq<(Seq<char>, Seq<char>)> {
    s.map_values(|x: (String, String)| (x.0@, x.1@))
}

spec fn step_of(p: ChatCompletionsParser, out: Seq<StreamEvent>) -> ChatStep {
    ChatStep { p: p@, out: stream::event_views(out) }
}

fn push_event(out: &mut Vec<StreamEvent>, e: StreamEvent)
    ensures
        stream::event_views(final(out)@) == stream::event_views(old(out)@).push(e@),
{
    let ghost before = out@;
    out.push(e);
    assert(stream::event_views(out@) =~= stream::event_views(before).push(e@));
}

impl Default for ChatCompletionsParser {
    fn default() -> (r: Self)
        ensures
            r@ == chat_start(),
    {
        let r = ChatCompletionsParser {
            input: 0,
            output: 0,
            total: 0,
            stop: StopReason::default(),
            saw_stop: false,
            tool_calls: Vec::new(),
            current_idx: None,
        };
        assert(r@.slots =~= Seq::empty());
        r
    }
}

impl ChatCompletionsParser {
    /// Takes in one payload and returns the events it stands for. The payload is read as a
    /// JSON value first: one that holds a number out of range, half a surrogate pair or too
    /// deep a nesting is no value, wherever in it that stands.
    pub fn feed(&mut self, line: &str) -> (r: Vec<StreamEvent>)
        ensures
            final(self)@ == chat_step(old(self)@, line@).p,
            stream::event_views(r@) == chat_step(old(self)@, line@).out,
    {
        let mut out: Vec<StreamEvent> = Vec::new();
        assert(stream::event_views(out@) =~= Seq::empty());
        let line = text::trim(line);
        if line.as_str().is_empty() {
            return out;
        }
        if text::str_eq(line.as_str(), "[DONE]") {
            if !self.saw_stop {
                push_event(&mut out, StreamEvent::Done { stop_reason: self.stop });
            }
            return out;
        }
        match json::parse(line.as_str()) {
            Ok(v) => self.feed_chunk(&v),
            Err(_) => out,
        }
    }

    /// Takes in one decoded payload and returns the events it stands for. A decoded payload
    /// holds each member once: where its text repeats a member, the later one counts.
    pub fn feed_chunk(&mut self, v: &Json) -> (r: Vec<StreamEvent>)
        ensures
            final(self)@ == chunk_step(old(self)@, v@).p,
            stream::event_views(r@) == chunk_step(old(self)@, v@).out,
    {
        let mut out: Vec<StreamEvent> = Vec::new();
        assert(stream::event_views(out@) =~= Seq::empty());
        let chunk = match chunk_from(v) {
            Some(c) => c,
            None => {
                return out;
            },
        };
        if let Some(u) = &chunk.usage {
            self.input = u.uint_member("prompt_tokens");
            self.output = u.uint_member("completion_tokens");
            self.total = u.uint_member("total_tokens");
        }
        let ghost start = step_of(*self, out@);
        let ghost choices = chunk@.choices;
        assert(choices.take(0) =~= Seq::<ChoiceView>::empty());
        let mut i: usize = 0;
        while i < chunk.choices.len()
            invariant
                i <= chunk.choices@.len(),
                choices == choice_views(chunk.choices@),
                step_of(*self, out@) == on_choices(start, choices.take(i as int)),
            decreases chunk.choices@.len() - i,
        {
            proof {
                assert(choices.take(i + 1).drop_last() =~= choices.take(i as int));
                assert(choices.take(i + 1).last() == chunk.choices@[i as int]@);
            }
            self.take_choice(&chunk.choices[i], &mut out);
            i += 1;
        }
        assert(choices.take(choices.len() as int) =~= choices);
        out
    }

    fn take_choice(&mut self, choice: &Choice, out: &mut Vec<StreamEvent>)
        ensures
            step_of(*final(self), final(out)@) == on_choice(
                step_of(*old(self), old(out)@),
                choice@,
            ),
    {
        if let Some(text) = &choice.delta.content {
            if !text.as_str().is_empty() {
                push_event(out, StreamEvent::TextDelta { delta: text.clone() });
            }
        }
        if let Some(calls) = &choice.delta.tool_calls {
            let ghost start = step_of(*self, out@);
            let ghost l = tool_delta_views(calls@);
            assert(l.take(0) =~= Seq::<ToolDeltaView>::empty());
            let mut i: usize = 0;
            while i < calls.len()
                invariant
                    i <= calls@.len(),
                    l == tool_delta_views(calls@),
                    step_of(*self, out@) == on_tools(start, l.take(i as int)),
                decreases calls@.len() - i,
            {
                proof {
                    assert(l.take(i + 1).drop_last() =~= l.take(i as int));
                    assert(l.take(i + 1).last() == calls@[i as int]@);
                }
                self.take_tool(&calls[i], out);
                i += 1;
            }
            assert(l.take(l.len() as int) =~= l);
        }
        if let Some(reason) = &choice.finish_reason {
            self.stop = finish_of(reason.as_str());
            self.saw_stop = true;
            if self.input.wrapping_add(self.output).wrapping_add(self.total) > 0 {
                let usage = Usage {
                    input: self.input,
                    output: self.output,
                    cache_read: 0,
                    cache_write: 0,
                    total: self.total,
                };
                push_event(out, StreamEvent::Usage { usage });
            }
            push_event(out, StreamEvent::Done { stop_reason: self.stop });
        }
    }

    fn take_tool(&mut self, tc: &ToolDelta, out: &mut Vec<StreamEvent>)
        ensures
            step_of(*final(self), final(out)@) == on_tool(step_of(*old(self), old(out)@), tc@),
    {
        self.grow_slots(tc.index);
        let ghost slots = self@.slots;
        assert(slots.len() == self.tool_calls@.len());
        let (mut id, mut name) = self.slot(tc.index);
        if let Some(i) = &tc.id {
            id = i.clone();
        }
        if let Some(f) = &tc.function {
            if let Some(n) = &f.name {
                name = n.clone();
            }
        }
        self.tool_calls.set(tc.index, (id.clone(), name.clone()));
        assert(self@.slots =~= slots.update(tc.index as int, (id@, name@)));
        if let Some(f) = &tc.function {
            if let Some(a) = &f.arguments {
                if !a.as_str().is_empty() {
                    let same = match self.current_idx {
                        Some(c) => c == tc.index,
                        None => false,
                    };
                    if !same {
                        push_event(
                            out,
                            StreamEvent::ToolCallStarted { id: id.clone(), name: name.clone() },
                        );
                        self.current_idx = Some(tc.index);
                    }
                    push_event(out, StreamEvent::ToolCallArgsDelta { id, delta: a.clone() });
                }
            }
        }
    }

    fn slot(&self, index: usize) -> (r: (String, String))
        requires
            index < self@.slots.len(),
        ensures
            (r.0@, r.1@) == self@.slots[index as int],
    {
        (self.tool_calls[index].0.clone(), self.tool_calls[index].1.clone())
    }

    fn grow_slots(&mut self, index: usize)
        ensures
            final(self)@ == (ChatParserView { slots: grown(old(self)@.slots, index), ..old(self)@ }),
    {
        let ghost before = self@;
        while self.tool_calls.len() <= index
            invariant
                before.slots.len() <= self.tool_calls@.len(),
                before.slots.len() <= index ==> self.tool_calls@.len() <= index + 1,
                before.slots.len() > index ==> self.tool_calls@.len() == before.slots.len(),
                self@ == (ChatParserView { slots: self@.slots, ..before }),
                self@.slots.len() == self.tool_calls@.len(),
                forall|i: int|
                    0 <= i < self@.slots.len() ==> #[trigger] self@.slots[i] == (if i
                        < before.slots.len() {
                        before.slots[i]
                    } else {
                        (Seq::<char>::empty(), Seq::<char>::empty())
                    }),
            decreases index + 1 - self.tool_calls@.len(),
        {
            let ghost mid = self@.slots;
            self.tool_calls.push((String::new(), String::new()));
            assert(self@.slots =~= mid.push((Seq::empty(), Seq::empty())));
        }
        assert(self@.slots =~= grown(before.slots, index));
    }
}

fn finish_of(word: &str) -> (r: StopReason)
    ensures
        r == chat_stop(word@),
{
    if text::str_eq(word, "length") {
        StopReason::Length
    } else if text::str_eq(word, "tool_calls") {
        StopReason::ToolUse
    } else {
        StopReason::Stop
    }
}

// ---- laws ---------------------------------------------------------------------------------------

/// Whether a list of events holds the end of the stream.
pub open spec fn holds_done(events: Seq<StreamEventView>) -> bool {
    exists|i: int| 0 <= i < events.len() && #[trigger] events[i] is Done
}

/// Whether `later` begins with the events of `earlier`.
pub open spec fn extends(later: Seq<StreamEventView>, earlier: Seq<StreamEventView>) -> bool {
    earlier.len() <= later.len() && later.take(earlier.len() as int) == earlier
}

proof fn lemma_extends_holds_done(later: Seq<StreamEventView>, earlier: Seq<StreamEventView>)
    requires
        extends(later, earlier),
        holds_done(earlier),
    ensures
        holds_done(later),
{
    let i = choose|i: int| 0 <= i < earlier.len() && #[trigger] earlier[i] is Done;
    assert(later.take(earlier.len() as int)[i] == later[i]);
}

proof fn lemma_tools_extend(s: ChatStep, l: Seq<ToolDeltaView>)
    ensures
        on_tools(s, l).p.saw_stop == s.p.saw_stop,
        extends(on_tools(s, l).out, s.out),
    decreases l.len(),
{
    if l.len() > 0 {
        lemma_tools_extend(s, l.drop_last());
        let mid = on_tools(s, l.drop_last()).out;
        let end = on_tools(s, l).out;
        assert(end.take(s.out.len() as int) =~= mid.take(s.out.len() as int));
    } else {
        assert(s.out.take(s.out.len() as int) =~= s.out);
    }
}

proof fn lemma_choices_extend(s: ChatStep, l: Seq<ChoiceView>)
    ensures
        s.p.saw_stop ==> on_choices(s, l).p.saw_stop,
        on_choices(s, l).p.saw_stop ==> s.p.saw_stop || holds_done(on_choices(s, l).out),
        extends(on_choices(s, l).out, s.out),
    decreases l.len(),
{
    if l.len() > 0 {
        lemma_choices_extend(s, l.drop_last());
        let mid = on_choices(s, l.drop_last());
        let c = l.last();
        let with_text = match c.delta.content {
            Some(t) => if t.len() > 0 {
                emit(mid, StreamEventView::TextDelta { delta: t })
            } else {
                mid
            },
            None => mid,
        };
        let with_tools = match c.delta.tool_calls {
            Some(calls) => on_tools(with_text, calls),
            None => with_text,
        };
        if let Some(calls) = c.delta.tool_calls {
            lemma_tools_extend(with_text, calls);
        } else {
            assert(with_text.out.take(with_text.out.len() as int) =~= with_text.out);
        }
        let end = on_choices(s, l);
        assert(end.out.take(with_tools.out.len() as int) =~= with_tools.out);
        assert(end.out.take(mid.out.len() as int) =~= with_tools.out.take(
            with_text.out.len() as int,
        ).take(mid.out.len() as int));
        assert(with_text.out.take(mid.out.len() as int) =~= mid.out);
        assert(end.out.take(s.out.len() as int) =~= mid.out.take(s.out.len() as int));
        if mid.p.saw_stop && !s.p.saw_stop {
            lemma_extends_holds_done(end.out, mid.out);
        }
        if let Some(word) = c.finish_reason {
            finish_ends_the_stream(with_tools, word);
        }
    } else {
        assert(s.out.take(s.out.len() as int) =~= s.out);
    }
}

/// What a list of payloads leads to, with all the events on the way.
pub open spec fn chat_run(p: ChatParserView, lines: Seq<Seq<char>>) -> ChatStep
    decreases lines.len(),
{
    if lines.len() == 0 {
        ChatStep { p, out: Seq::empty() }
    } else {
        let mid = chat_run(p, lines.drop_last());
        let next = chat_step(mid.p, lines.last());
        ChatStep { p: next.p, out: mid.out + next.out }
    }
}

proof fn lemma_run_closes(lines: Seq<Seq<char>>)
    ensures
        chat_run(chat_start(), lines).p.saw_stop ==> holds_done(
            chat_run(chat_start(), lines).out,
        ),
    decreases lines.len(),
{
    if lines.len() > 0 {
        lemma_run_closes(lines.drop_last());
        let mid = chat_run(chat_start(), lines.drop_last());
        let next = chat_step(mid.p, lines.last());
        let all = mid.out + next.out;
        if mid.p.saw_stop {
            assert(all.take(mid.out.len() as int) =~= mid.out);
            lemma_extends_holds_done(all, mid.out);
        } else if let Ok(v) = json::parsed(text::trimmed(lines.last())) {
            if let Some(c) = decoded_chunk(v) {
                lemma_choices_extend(
                    ChatStep { p: with_counts(mid.p, c.usage), out: Seq::empty() },
                    c.choices,
                );
            }
            if next.p.saw_stop {
                let i = choose|i: int| 0 <= i < next.out.len() && #[trigger] next.out[i] is Done;
                assert(all[mid.out.len() + i] == next.out[i]);
            }
        }
    }
}

/// Whatever the provider sends, a stream that ends in the end marker has its `Done`.
pub proof fn every_stream_is_closed(lines: Seq<Seq<char>>, marker: Seq<char>)
    requires
        text::trimmed(marker) == "[DONE]"@,
    ensures
        holds_done(chat_run(chat_start(), lines.push(marker)).out),
{
    let mid = chat_run(chat_start(), lines);
    let all = chat_run(chat_start(), lines.push(marker)).out;
    assert(lines.push(marker).drop_last() =~= lines);
    lemma_run_closes(lines);
    done_marker_closes_once(mid.p, marker);
    if mid.p.saw_stop {
        assert(all.take(mid.out.len() as int) =~= mid.out);
        lemma_extends_holds_done(all, mid.out);
    } else {
        assert(all[mid.out.len() as int] is Done);
    }
}

/// The number of finish reasons among choices.
pub open spec fn choice_finishes(l: Seq<ChoiceView>) -> nat
    decreases l.len(),
{
    if l.len() == 0 {
        0
    } else {
        choice_finishes(l.drop_last()) + (if l.last().finish_reason is Some {
            1nat
        } else {
            0nat
        })
    }
}

/// Whether a payload is the end marker.
pub open spec fn is_marker(line: Seq<char>) -> bool {
    text::trimmed(line) == "[DONE]"@
}

/// The number of finish reasons in a payload.
pub open spec fn line_finishes(line: Seq<char>) -> nat {
    let l = text::trimmed(line);
    if l.len() == 0 || is_marker(line) {
        0
    } else {
        match json::parsed(l) {
            Ok(v) => match decoded_chunk(v) {
                Some(c) => choice_finishes(c.choices),
                None => 0,
            },
            Err(_) => 0,
        }
    }
}

/// The number of finish reasons in a stream of payloads.
pub open spec fn finish_count(lines: Seq<Seq<char>>) -> nat
    decreases lines.len(),
{
    if lines.len() == 0 {
        0
    } else {
        finish_count(lines.drop_last()) + line_finishes(lines.last())
    }
}

proof fn lemma_emit_counts(s: ChatStep, e: StreamEventView)
    ensures
        stream::done_count(emit(s, e).out) == stream::done_count(s.out) + (if e is Done {
            1nat
        } else {
            0nat
        }),
{
    assert(s.out.push(e).drop_last() =~= s.out);
}

proof fn lemma_tool_counts(s: ChatStep, t: ToolDeltaView)
    ensures
        stream::done_count(on_tool(s, t).out) == stream::done_count(s.out),
        on_tool(s, t).p.saw_stop == s.p.saw_stop,
{
    let out = on_tool(s, t).out;
    if out.len() == s.out.len() + 1 {
        assert(out.drop_last() =~= s.out);
    } else if out.len() == s.out.len() + 2 {
        assert(out.drop_last().drop_last() =~= s.out);
    }
    reveal_with_fuel(stream::done_count, 3);
}

proof fn lemma_tools_count(s: ChatStep, l: Seq<ToolDeltaView>)
    ensures
        stream::done_count(on_tools(s, l).out) == stream::done_count(s.out),
        on_tools(s, l).p.saw_stop == s.p.saw_stop,
    decreases l.len(),
{
    if l.len() > 0 {
        lemma_tools_count(s, l.drop_last());
        lemma_tool_counts(on_tools(s, l.drop_last()), l.last());
    }
}

proof fn lemma_finish_counts(s: ChatStep, word: Seq<char>)
    ensures
        stream::done_count(on_finish(s, word).out) == stream::done_count(s.out) + 1,
{
    let out = on_finish(s, word).out;
    if out.len() == s.out.len() + 1 {
        assert(out.drop_last() =~= s.out);
    } else {
        assert(out.drop_last().drop_last() =~= s.out);
    }
    reveal_with_fuel(stream::done_count, 3);
}

proof fn lemma_choices_count(s: ChatStep, l: Seq<ChoiceView>)
    ensures
        stream::done_count(on_choices(s, l).out) == stream::done_count(s.out) + choice_finishes(l),
        on_choices(s, l).p.saw_stop == (s.p.saw_stop || choice_finishes(l) > 0),
    decreases l.len(),
{
    if l.len() > 0 {
        lemma_choices_count(s, l.drop_last());
        let mid = on_choices(s, l.drop_last());
        let c = l.last();
        let with_text = match c.delta.content {
            Some(t) => if t.len() > 0 {
                emit(mid, StreamEventView::TextDelta { delta: t })
            } else {
                mid
            },
            None => mid,
        };
        if let Some(t) = c.delta.content {
            lemma_emit_counts(mid, StreamEventView::TextDelta { delta: t });
        }
        let with_tools = match c.delta.tool_calls {
            Some(calls) => on_tools(with_text, calls),
            None => with_text,
        };
        if let Some(calls) = c.delta.tool_calls {
            lemma_tools_count(with_text, calls);
        }
        if let Some(word) = c.finish_reason {
            lemma_finish_counts(with_tools, word);
        }
    }
}

proof fn lemma_run_counts(lines: Seq<Seq<char>>)
    requires
        forall|i: int| 0 <= i < lines.len() ==> !is_marker(#[trigger] lines[i]),
    ensures
        stream::done_count(chat_run(chat_start(), lines).out) == finish_count(lines),
        chat_run(chat_start(), lines).p.saw_stop == (finish_count(lines) > 0),
    decreases lines.len(),
{
    if lines.len() > 0 {
        assert forall|i: int| 0 <= i < lines.drop_last().len() implies !is_marker(
            #[trigger] lines.drop_last()[i],
        ) by {
            assert(lines.drop_last()[i] == lines[i]);
        }
        lemma_run_counts(lines.drop_last());
        let mid = chat_run(chat_start(), lines.drop_last());
        let next = chat_step(mid.p, lines.last());
        stream::lemma_done_count_concat(mid.out, next.out);
        assert(!is_marker(lines[lines.len() - 1]));
        if let Ok(v) = json::parsed(text::trimmed(lines.last())) {
            if let Some(c) = decoded_chunk(v) {
                lemma_choices_count(
                    ChatStep { p: with_counts(mid.p, c.usage), out: Seq::empty() },
                    c.choices,
                );
            }
        }
    }
}

/// A stream that ends in the end marker has one `Done` for each finish reason, and one where
/// there is no finish reason. So it has exactly one where the provider finishes at most once.
pub proof fn dones_match_finishes(lines: Seq<Seq<char>>, marker: Seq<char>)
    requires
        is_marker(marker),
        forall|i: int| 0 <= i < lines.len() ==> !is_marker(#[trigger] lines[i]),
    ensures
        stream::done_count(chat_run(chat_start(), lines.push(marker)).out) == (if finish_count(
            lines,
        ) == 0 {
            1
        } else {
            finish_count(lines)
        }),
        finish_count(lines) <= 1 ==> stream::done_count(
            chat_run(chat_start(), lines.push(marker)).out,
        ) == 1,
{
    let mid = chat_run(chat_start(), lines);
    assert(lines.push(marker).drop_last() =~= lines);
    lemma_run_counts(lines);
    done_marker_closes_once(mid.p, marker);
    let next = chat_step(mid.p, marker);
    stream::lemma_done_count_concat(mid.out, next.out);
    reveal_with_fuel(stream::done_count, 2);
}

/// A finish reason is remembered: no later payload makes the parser forget it.
pub proof fn finish_is_remembered(p: ChatParserView, line: Seq<char>)
    requires
        p.saw_stop,
    ensures
        chat_step(p, line).p.saw_stop,
{
    if let Ok(v) = json::parsed(text::trimmed(line)) {
        if let Some(c) = decoded_chunk(v) {
            lemma_choices_extend(
                ChatStep { p: with_counts(p, c.usage), out: Seq::empty() },
                c.choices,
            );
        }
    }
}

/// The end marker adds a `Done` exactly where no finish reason came before, and never
/// changes the state.
pub proof fn done_marker_closes_once(p: ChatParserView, line: Seq<char>)
    requires
        text::trimmed(line) == "[DONE]"@,
    ensures
        chat_step(p, line).p == p,
        chat_step(p, line).out == (if p.saw_stop {
            Seq::<StreamEventView>::empty()
        } else {
            seq![StreamEventView::Done { stop_reason: p.stop }]
        }),
{
    reveal_strlit("[DONE]");
    assert(Seq::<StreamEventView>::empty().push(
        StreamEventView::Done { stop_reason: p.stop },
    ) =~= seq![StreamEventView::Done { stop_reason: p.stop }]);
}

/// A finish reason always ends in `Done`, with the usage right before it where any is known.
pub proof fn finish_ends_the_stream(s: ChatStep, word: Seq<char>)
    ensures
        on_finish(s, word).out.last() == (StreamEventView::Done { stop_reason: chat_stop(word) }),
        holds_done(on_finish(s, word).out),
        on_finish(s, word).p.saw_stop,
        0 < s.p.input + s.p.output + s.p.total <= u64::MAX ==> on_finish(s, word).out
            == s.out.push(
            StreamEventView::Usage {
                usage: Usage {
                    input: s.p.input,
                    output: s.p.output,
                    cache_read: 0,
                    cache_write: 0,
                    total: s.p.total,
                },
            },
        ).push(StreamEventView::Done { stop_reason: chat_stop(word) }),
{
    let e = on_finish(s, word).out;
    assert(e[e.len() - 1] is Done);
}

proof fn lemma_body_keys()
    ensures
        "role"@ != "content"@,
        "role"@ != "tool_calls"@,
        "content"@ != "tool_calls"@,
        "role"@ != "tool_call_id"@,
        "tool_call_id"@ != "content"@,
        "id"@ != "type"@,
        "id"@ != "function"@,
        "type"@ != "function"@,
        "name"@ != "arguments"@,
        "name"@ != "description"@,
        "name"@ != "parameters"@,
        "description"@ != "parameters"@,
        "model"@ != "messages"@,
        "model"@ != "stream"@,
        "model"@ != "max_tokens"@,
        "model"@ != "tools"@,
        "messages"@ != "stream"@,
        "messages"@ != "max_tokens"@,
        "messages"@ != "tools"@,
        "stream"@ != "max_tokens"@,
        "stream"@ != "tools"@,
        "max_tokens"@ != "tools"@,
{
    reveal_strlit("role");
    reveal_strlit("content");
    reveal_strlit("tool_calls");
    reveal_strlit("tool_call_id");
    reveal_strlit("id");
    reveal_strlit("type");
    reveal_strlit("function");
    reveal_strlit("name");
    reveal_strlit("arguments");
    reveal_strlit("description");
    reveal_strlit("parameters");
    reveal_strlit("model");
    reveal_strlit("messages");
    reveal_strlit("stream");
    reveal_strlit("max_tokens");
    reveal_strlit("tools");
    assert("role"@.len() != "content"@.len());
    assert("role"@.len() != "tool_calls"@.len());
    assert("content"@.len() != "tool_calls"@.len());
    assert("role"@.len() != "tool_call_id"@.len());
    assert("tool_call_id"@.len() != "content"@.len());
    assert("id"@.len() != "type"@.len());
    assert("id"@.len() != "function"@.len());
    assert("type"@.len() != "function"@.len());
    assert("name"@.len() != "arguments"@.len());
    assert("name"@.len() != "description"@.len());
    assert("name"@.len() != "parameters"@.len());
    assert("description"@.len() != "parameters"@.len());
    assert("model"@.len() != "messages"@.len());
    assert("model"@.len() != "stream"@.len());
    assert("model"@.len() != "max_tokens"@.len());
    assert("model"@[0] != "tools"@[0]);
    assert("messages"@.len() != "stream"@.len());
    assert("messages"@.len() != "max_tokens"@.len());
    assert("messages"@.len() != "tools"@.len());
    assert("stream"@.len() != "max_tokens"@.len());
    assert("stream"@.len() != "tools"@.len());
    assert("max_tokens"@.len() != "tools"@.len());
}


/// The number of tool calls among the first `n` parts.
pub open spec fn calls_among(parts: Seq<PartView>, n: int) -> nat
    decreases n,
{
    if n <= 0 {
        0
    } else {
        calls_among(parts, n - 1) + (if parts[n - 1] is ToolCall {
            1nat
        } else {
            0nat
        })
    }
}

/// Whether a value is a tool call with this id, name and arguments.
pub open spec fn is_call(v: JVal, id: Seq<char>, name: Seq<char>, arguments: Seq<char>) -> bool {
    &&& json::member(v, "id"@) == Some(JVal::Str(id))
    &&& json::member(v, "type"@) == Some(JVal::Str("function"@))
    &&& json::member(v, "function"@) matches Some(f) && json::member(f, "name"@) == Some(
        JVal::Str(name),
    ) && json::member(f, "arguments"@) == Some(JVal::Str(arguments))
}

proof fn lemma_part_calls(parts: Seq<PartView>)
    ensures
        part_calls(parts).len() == calls_among(parts, parts.len() as int),
        forall|i: int|
            0 <= i < parts.len() ==> (#[trigger] parts[i] matches PartView::ToolCall {
                id,
                name,
                arguments,
            } ==> calls_among(parts, i) < part_calls(parts).len() && is_call(
                part_calls(parts)[calls_among(parts, i) as int],
                id,
                name,
                arguments,
            )),
    decreases parts.len(),
{
    lemma_body_keys();
    if parts.len() > 0 {
        let less = parts.drop_last();
        let n = parts.len() - 1;
        lemma_part_calls(less);
        lemma_calls_among_prefix(parts, n);
        assert forall|i: int| 0 <= i < parts.len() implies (
        #[trigger] parts[i] matches PartView::ToolCall { id, name, arguments } ==> calls_among(
            parts,
            i,
        ) < part_calls(parts).len() && is_call(
            part_calls(parts)[calls_among(parts, i) as int],
            id,
            name,
            arguments,
        )) by {
            lemma_calls_among_prefix(parts, i);
            if i < n {
                assert(less[i] == parts[i]);
                if parts[i] is ToolCall {
                    assert(calls_among(less, i) < part_calls(less).len());
                }
            }
        }
    }
}

proof fn lemma_calls_among_prefix(parts: Seq<PartView>, i: int)
    requires
        0 <= i < parts.len(),
    ensures
        calls_among(parts, i) == calls_among(parts.drop_last(), i),
    decreases i,
{
    if i > 0 {
        lemma_calls_among_prefix(parts, i - 1);
    }
}

/// An assistant message that asks for tools is written with all its calls: one for each call
/// among its parts, in their order, with its id, name and arguments, beside its text.
pub proof fn tool_calls_are_written_whole(m: ChatMessageView)
    requires
        forall|i: int| 0 <= i < m.parts.len() ==> !(#[trigger] m.parts[i] is ToolResult),
        exists|i: int| 0 <= i < m.parts.len() && #[trigger] m.parts[i] is ToolCall,
    ensures
        json::member(completion_message(m), "role"@) == Some(JVal::Str("assistant"@)),
        json::member(completion_message(m), "content"@) == Some(
            JVal::Str(text::joined(part_texts(m.parts), "\n"@)),
        ),
        json::member(completion_message(m), "tool_calls"@) matches Some(JVal::Array(calls))
            && calls.len() == calls_among(m.parts, m.parts.len() as int) && (forall|i: int|
            0 <= i < m.parts.len() ==> (#[trigger] m.parts[i] matches PartView::ToolCall {
                id,
                name,
                arguments,
            } ==> calls_among(m.parts, i) < calls.len() && is_call(
                calls[calls_among(m.parts, i) as int],
                id,
                name,
                arguments,
            ))),
{
    lemma_body_keys();
    lemma_part_calls(m.parts);
    lemma_no_results(m.parts);
    let i = choose|i: int| 0 <= i < m.parts.len() && #[trigger] m.parts[i] is ToolCall;
    assert(calls_among(m.parts, i) < part_calls(m.parts).len());
}

proof fn lemma_no_results(parts: Seq<PartView>)
    requires
        forall|i: int| 0 <= i < parts.len() ==> !(#[trigger] parts[i] is ToolResult),
    ensures
        last_result(parts) is None,
    decreases parts.len(),
{
    if parts.len() > 0 {
        assert(!(parts[parts.len() - 1] is ToolResult));
        assert forall|i: int| 0 <= i < parts.drop_last().len() implies !(
        #[trigger] parts.drop_last()[i] is ToolResult) by {
            assert(parts.drop_last()[i] == parts[i]);
        }
        lemma_no_results(parts.drop_last());
    }
}

/// The text that a part carries.
pub open spec fn carried(p: PartView) -> Seq<char> {
    match p {
        PartView::Text { text } => text,
        PartView::Thinking { thinking } => thinking,
        PartView::ToolCall { .. } => Seq::empty(),
        PartView::ToolResult { content, .. } => content,
    }
}

proof fn lemma_all_texts(parts: Seq<PartView>)
    requires
        forall|i: int| 0 <= i < parts.len() ==> !(#[trigger] parts[i] is ToolCall),
    ensures
        part_texts(parts) == parts.map_values(|p: PartView| carried(p)),
        part_calls(parts).len() == 0,
    decreases parts.len(),
{
    if parts.len() > 0 {
        let less = parts.drop_last();
        assert(!(parts[parts.len() - 1] is ToolCall));
        assert forall|i: int| 0 <= i < less.len() implies !(#[trigger] less[i] is ToolCall) by {
            assert(less[i] == parts[i]);
        }
        lemma_all_texts(less);
        assert(part_texts(parts) =~= parts.map_values(|p: PartView| carried(p)));
    } else {
        assert(part_texts(parts) =~= parts.map_values(|p: PartView| carried(p)));
    }
}

/// A message without tools is written under its own role, with the texts of all its parts, in
/// order, on lines of their own.
pub proof fn plain_messages_are_written_whole(m: ChatMessageView)
    requires
        forall|i: int|
            0 <= i < m.parts.len() ==> (#[trigger] m.parts[i] is Text || m.parts[i] is Thinking),
    ensures
        json::member(completion_message(m), "role"@) == Some(JVal::Str(m.role)),
        json::member(completion_message(m), "content"@) == Some(
            JVal::Str(text::joined(m.parts.map_values(|p: PartView| carried(p)), "\n"@)),
        ),
        json::member(completion_message(m), "tool_calls"@) is None,
{
    lemma_body_keys();
    lemma_all_texts(m.parts);
    lemma_no_results(m.parts);
}

/// A tool's answer is written as a tool message under the id of its call, marked where it is
/// an error.
pub proof fn tool_results_are_written_whole(
    m: ChatMessageView,
    id: Seq<char>,
    content: Seq<char>,
    failed: bool,
)
    requires
        m.parts == seq![PartView::ToolResult { tool_call_id: id, content, is_error: failed }],
    ensures
        json::member(completion_message(m), "role"@) == Some(JVal::Str("tool"@)),
        json::member(completion_message(m), "tool_call_id"@) == Some(JVal::Str(id)),
        !failed ==> json::member(completion_message(m), "content"@) == Some(JVal::Str(content)),
        failed ==> json::member(completion_message(m), "content"@) == Some(
            JVal::Str("[error]\n"@ + content),
        ),
{
    lemma_body_keys();
    lemma_all_texts(m.parts);
    assert(part_texts(m.parts) =~= seq![content]);
    assert(m.parts.last() == m.parts[0]);
}

/// The request body says all that was asked: the model, the limit, that the answer is
/// streamed, the system prompt first where there is one, every message in order, and every
/// tool in order where there are any.
pub proof fn request_is_written_whole(req: ProviderRequestView)
    ensures
        json::member(completion_body(req), "model"@) == Some(JVal::Str(req.model.id)),
        json::member(completion_body(req), "max_tokens"@) == Some(
            JVal::UInt(req.max_tokens as u64),
        ),
        json::member(completion_body(req), "stream"@) == Some(JVal::Bool(true)),
        req.system.len() == 0 ==> (json::member(completion_body(req), "messages"@) matches Some(
            JVal::Array(s),
        ) && s.len() == req.messages.len() && (forall|i: int|
            0 <= i < req.messages.len() ==> s[i] == completion_message(#[trigger] req.messages[i]))),
        req.system.len() > 0 ==> (json::member(completion_body(req), "messages"@) matches Some(
            JVal::Array(s),
        ) && s.len() == req.messages.len() + 1 && json::member(s[0], "role"@) == Some(
            JVal::Str("system"@),
        ) && json::member(s[0], "content"@) == Some(JVal::Str(req.system)) && (forall|i: int|
            0 <= i < req.messages.len() ==> s[i + 1] == completion_message(
                #[trigger] req.messages[i],
            ))),
        req.tools.len() == 0 ==> json::member(completion_body(req), "tools"@) is None,
        req.tools.len() > 0 ==> (json::member(completion_body(req), "tools"@) matches Some(
            JVal::Array(s),
        ) && s.len() == req.tools.len() && (forall|i: int|
            0 <= i < s.len() ==> {
                &&& json::member(#[trigger] s[i], "type"@) == Some(JVal::Str("function"@))
                &&& json::member(s[i], "function"@) matches Some(f) && json::member(f, "name"@)
                    == Some(JVal::Str(req.tools[i].name)) && json::member(f, "description"@)
                    == Some(JVal::Str(req.tools[i].description)) && json::member(f, "parameters"@)
                    == Some(req.tools[i].input_schema)
            })),
{
    lemma_body_keys();
}

/// Without a key nothing is sent. With one, the request goes to the provider's URL, carries
/// the key as a bearer token and the type of its body, and its body is what was asked.
pub proof fn requests_are_addressed(p: EndpointView, req: ProviderRequestView)
    ensures
        p.api_key.len() == 0 ==> chat_http(p, req) is Err,
        p.api_key.len() > 0 ==> (chat_http(p, req) matches Ok(h) && h.url == p.base_url
            && h.headers.len() == 2 && h.headers.contains(
            ("Authorization"@, "Bearer "@ + p.api_key),
        ) && h.headers.contains(("content-type"@, "application/json"@)) && h.body
            == json::rendered(completion_body(req))),
{
    let h = chat_headers(p);
    assert(h[0] == ("Authorization"@, "Bearer "@ + p.api_key));
    assert(h[1] == ("content-type"@, "application/json"@));
}

// ---- laws on chunks -------------------------------------------------------------------------------

proof fn lemma_chunk_keys()
    ensures
        "content"@ != "tool_calls"@,
        "delta"@ != "finish_reason"@,
        "choices"@ != "usage"@,
        "index"@ != "id"@,
        "index"@ != "function"@,
        "id"@ != "function"@,
        "name"@ != "arguments"@,
{
    reveal_strlit("content");
    reveal_strlit("tool_calls");
    reveal_strlit("delta");
    reveal_strlit("finish_reason");
    reveal_strlit("choices");
    reveal_strlit("usage");
    reveal_strlit("index");
    reveal_strlit("id");
    reveal_strlit("function");
    reveal_strlit("name");
    reveal_strlit("arguments");
    assert("content"@.len() != "tool_calls"@.len());
    assert("delta"@.len() != "finish_reason"@.len());
    assert("choices"@.len() != "usage"@.len());
    assert("index"@.len() != "id"@.len());
    assert("index"@.len() != "function"@.len());
    assert("id"@.len() != "function"@.len());
    assert("name"@.len() != "arguments"@.len());
}

proof fn lemma_finish_words()
    ensures
        "stop"@ != "length"@,
        "stop"@ != "tool_calls"@,
        "length"@ != "tool_calls"@,
{
    reveal_strlit("stop");
    reveal_strlit("length");
    reveal_strlit("tool_calls");
    assert("stop"@.len() != "length"@.len());
    assert("stop"@.len() != "tool_calls"@.len());
    assert("length"@.len() != "tool_calls"@.len());
}


/// The chunk that carries one delta and perhaps a finish reason, as an API writes it.
pub open spec fn written_chunk(delta: JVal, finish: Option<Seq<char>>) -> JVal {
    JVal::Object(
        map![
            "choices"@ => JVal::Array(
                seq![
                    JVal::Object(
                        map![
                            "delta"@ => delta,
                            "finish_reason"@ => match finish {
                                Some(w) => JVal::Str(w),
                                None => JVal::Null,
                            },
                        ],
                    ),
                ],
            ),
        ],
    )
}

/// The delta that carries a text.
pub open spec fn text_delta(t: Seq<char>) -> JVal {
    JVal::Object(map!["content"@ => JVal::Str(t)])
}

/// The delta that carries a piece of a tool call: perhaps its id and name, and a fragment of
/// its arguments.
pub open spec fn call_delta(
    index: u64,
    head: Option<(Seq<char>, Seq<char>)>,
    fragment: Seq<char>,
) -> JVal {
    let call = match head {
        Some((id, name)) => map![
            "index"@ => JVal::UInt(index),
            "id"@ => JVal::Str(id),
            "function"@ => JVal::Object(
                map!["name"@ => JVal::Str(name), "arguments"@ => JVal::Str(fragment)],
            ),
        ],
        None => map![
            "index"@ => JVal::UInt(index),
            "function"@ => JVal::Object(map!["arguments"@ => JVal::Str(fragment)]),
        ],
    };
    JVal::Object(map!["tool_calls"@ => JVal::Array(seq![JVal::Object(call)])])
}

proof fn lemma_one_choice(c: JVal)
    ensures
        decoded_choices(seq![c]) == (match decoded_choice(c) {
            Some(d) => Some(seq![d]),
            None => None,
        }),
{
    reveal_with_fuel(decoded_choices, 2);
    assert(seq![c].drop_last() =~= Seq::<JVal>::empty());
    if let Some(d) = decoded_choice(c) {
        assert(Seq::<ChoiceView>::empty().push(d) =~= seq![d]);
    }
}

proof fn lemma_written_chunk(delta: JVal, finish: Option<Seq<char>>, d: DeltaView)
    requires
        decoded_delta(delta) == Some(d),
    ensures
        decoded_chunk(written_chunk(delta, finish)) == Some(
            ChunkView {
                choices: seq![ChoiceView { delta: d, finish_reason: finish }],
                usage: None,
            },
        ),
{
    lemma_chunk_keys();
    let choice = JVal::Object(
        map![
            "delta"@ => delta,
            "finish_reason"@ => match finish {
                Some(w) => JVal::Str(w),
                None => JVal::Null,
            },
        ],
    );
    assert(decoded_choice(choice) == Some(ChoiceView { delta: d, finish_reason: finish }));
    lemma_one_choice(choice);
}

proof fn lemma_step_one(p: ChatParserView, v: JVal, c: ChoiceView)
    requires
        decoded_chunk(v) == Some(ChunkView { choices: seq![c], usage: None }),
    ensures
        chunk_step(p, v) == on_choice(ChatStep { p, out: Seq::empty() }, c),
{
    reveal_with_fuel(on_choices, 2);
    assert(seq![c].drop_last() =~= Seq::<ChoiceView>::empty());
}

/// A chunk that carries text is one event with that text, and leaves the state alone; one
/// that carries an empty text is none.
pub proof fn chunks_carry_their_text(p: ChatParserView, t: Seq<char>)
    ensures
        chunk_step(p, written_chunk(text_delta(t), None)).p == p,
        t.len() > 0 ==> chunk_step(p, written_chunk(text_delta(t), None)).out == seq![
            StreamEventView::TextDelta { delta: t },
        ],
        t.len() == 0 ==> chunk_step(p, written_chunk(text_delta(t), None)).out.len() == 0,
{
    lemma_chunk_keys();
    let d = DeltaView { content: Some(t), tool_calls: None };
    assert(decoded_delta(text_delta(t)) == Some(d));
    lemma_written_chunk(text_delta(t), None, d);
    lemma_step_one(
        p,
        written_chunk(text_delta(t), None),
        ChoiceView { delta: d, finish_reason: None },
    );
    assert(Seq::<StreamEventView>::empty().push(StreamEventView::TextDelta { delta: t })
        =~= seq![StreamEventView::TextDelta { delta: t }]);
}

proof fn lemma_call_delta(index: u64, head: Option<(Seq<char>, Seq<char>)>, fragment: Seq<char>)
    requires
        index <= usize::MAX,
    ensures
        decoded_delta(call_delta(index, head, fragment)) == Some(
            DeltaView {
                content: None,
                tool_calls: Some(
                    seq![
                        ToolDeltaView {
                            index: index as usize,
                            id: match head {
                                Some((id, _)) => Some(id),
                                None => None,
                            },
                            function: Some(
                                FnDeltaView {
                                    name: match head {
                                        Some((_, name)) => Some(name),
                                        None => None,
                                    },
                                    arguments: Some(fragment),
                                },
                            ),
                        },
                    ],
                ),
            },
        ),
{
    lemma_chunk_keys();
    let v = json::member(call_delta(index, head, fragment), "tool_calls"@)->Some_0->Array_0[0];
    let want = ToolDeltaView {
        index: index as usize,
        id: match head {
            Some((id, _)) => Some(id),
            None => None,
        },
        function: Some(
            FnDeltaView {
                name: match head {
                    Some((_, name)) => Some(name),
                    None => None,
                },
                arguments: Some(fragment),
            },
        ),
    };
    assert(decoded_tool(v) == Some(want));
    reveal_with_fuel(decoded_tools, 2);
    assert(seq![v].drop_last() =~= Seq::<JVal>::empty());
    assert(Seq::<ToolDeltaView>::empty().push(want) =~= seq![want]);
}

proof fn lemma_call_step(
    p: ChatParserView,
    index: u64,
    head: Option<(Seq<char>, Seq<char>)>,
    fragment: Seq<char>,
)
    requires
        index <= usize::MAX,
    ensures
        ({
            let v = written_chunk(call_delta(index, head, fragment), None);
            let d = decoded_delta(call_delta(index, head, fragment))->Some_0.tool_calls->Some_0[0];
            &&& decoded_delta(call_delta(index, head, fragment)) is Some
            &&& chunk_step(p, v) == on_tool(ChatStep { p, out: Seq::empty() }, d)
        }),
{
    lemma_call_delta(index, head, fragment);
    let dv = decoded_delta(call_delta(index, head, fragment))->Some_0;
    let d = dv.tool_calls->Some_0[0];
    let v = written_chunk(call_delta(index, head, fragment), None);
    lemma_written_chunk(call_delta(index, head, fragment), None, dv);
    lemma_step_one(p, v, ChoiceView { delta: dv, finish_reason: None });
    reveal_with_fuel(on_tools, 2);
    let l = dv.tool_calls->Some_0;
    assert(l =~= seq![d]);
    assert(l.drop_last() =~= Seq::<ToolDeltaView>::empty());
}

/// The first piece of a call announces the call, under its id and name, and hands its
/// fragment on. A later piece, which need not repeat them, hands its fragment on under the
/// same id and announces nothing. Nothing of a fragment is lost.
pub proof fn chunks_carry_their_calls(
    p: ChatParserView,
    index: u64,
    id: Seq<char>,
    name: Seq<char>,
    first: Seq<char>,
    next: Seq<char>,
)
    requires
        index <= usize::MAX,
        p.current != Some(index as usize),
        first.len() > 0,
        next.len() > 0,
    ensures
        ({
            let a = chunk_step(p, written_chunk(call_delta(index, Some((id, name)), first), None));
            let b = chunk_step(a.p, written_chunk(call_delta(index, None, next), None));
            &&& a.out == seq![
                StreamEventView::ToolCallStarted { id, name },
                StreamEventView::ToolCallArgsDelta { id, delta: first },
            ]
            &&& b.out == seq![StreamEventView::ToolCallArgsDelta { id, delta: next }]
            &&& b.p == a.p
            &&& a.p.saw_stop == p.saw_stop
        }),
{
    lemma_call_delta(index, Some((id, name)), first);
    lemma_call_step(p, index, Some((id, name)), first);
    let a = chunk_step(p, written_chunk(call_delta(index, Some((id, name)), first), None));
    lemma_call_delta(index, None, next);
    lemma_call_step(a.p, index, None, next);
    let b = chunk_step(a.p, written_chunk(call_delta(index, None, next), None));
    assert(a.out =~= seq![
        StreamEventView::ToolCallStarted { id, name },
        StreamEventView::ToolCallArgsDelta { id, delta: first },
    ]);
    assert(a.p.slots[index as int] == (id, name));
    assert(b.out =~= seq![StreamEventView::ToolCallArgsDelta { id, delta: next }]);
    assert(b.p.slots =~= a.p.slots);
}

/// An id and a name that come ahead of any arguments are kept for the fragments that follow.
pub proof fn call_heads_are_kept(
    p: ChatParserView,
    index: u64,
    id: Seq<char>,
    name: Seq<char>,
    fragment: Seq<char>,
)
    requires
        index <= usize::MAX,
        p.current != Some(index as usize),
        fragment.len() > 0,
    ensures
        ({
            let a = chunk_step(
                p,
                written_chunk(call_delta(index, Some((id, name)), Seq::empty()), None),
            );
            let b = chunk_step(a.p, written_chunk(call_delta(index, None, fragment), None));
            &&& a.out.len() == 0
            &&& b.out == seq![
                StreamEventView::ToolCallStarted { id, name },
                StreamEventView::ToolCallArgsDelta { id, delta: fragment },
            ]
        }),
{
    lemma_call_delta(index, Some((id, name)), Seq::empty());
    lemma_call_step(p, index, Some((id, name)), Seq::empty());
    let a = chunk_step(p, written_chunk(call_delta(index, Some((id, name)), Seq::empty()), None));
    lemma_call_delta(index, None, fragment);
    lemma_call_step(a.p, index, None, fragment);
    let b = chunk_step(a.p, written_chunk(call_delta(index, None, fragment), None));
    assert(a.p.slots[index as int] == (id, name));
    assert(b.out =~= seq![
        StreamEventView::ToolCallStarted { id, name },
        StreamEventView::ToolCallArgsDelta { id, delta: fragment },
    ]);
}

/// Calls that stream beside one another do not touch each other: a piece of one leaves the id
/// and the name of every other as they were.
pub proof fn calls_do_not_touch_each_other(
    p: ChatParserView,
    index: u64,
    head: Option<(Seq<char>, Seq<char>)>,
    fragment: Seq<char>,
    other: int,
)
    requires
        index <= usize::MAX,
        0 <= other < p.slots.len(),
        other != index,
    ensures
        chunk_step(p, written_chunk(call_delta(index, head, fragment), None)).p.slots.len()
            >= p.slots.len(),
        chunk_step(p, written_chunk(call_delta(index, head, fragment), None)).p.slots[other]
            == p.slots[other],
{
    lemma_call_delta(index, head, fragment);
    lemma_call_step(p, index, head, fragment);
}

/// A finish reason ends the answer with the reason it names: a plain stop, a cut at the limit,
/// or a stop for tools.
pub proof fn finish_reasons_are_read(p: ChatParserView)
    ensures
        chunk_step(p, written_chunk(text_delta(Seq::empty()), Some("stop"@))).out.last() == (
        StreamEventView::Done { stop_reason: StopReason::Stop }),
        chunk_step(p, written_chunk(text_delta(Seq::empty()), Some("length"@))).out.last() == (
        StreamEventView::Done { stop_reason: StopReason::Length }),
        chunk_step(p, written_chunk(text_delta(Seq::empty()), Some("tool_calls"@))).out.last() == (
        StreamEventView::Done { stop_reason: StopReason::ToolUse }),
{
    lemma_chunk_keys();
    lemma_finish_words();
    let none = Seq::<char>::empty();
    let d = DeltaView { content: Some(none), tool_calls: None };
    assert(decoded_delta(text_delta(none)) == Some(d));
    assert forall|w: Seq<char>| (#[trigger] chunk_step(
        p,
        written_chunk(text_delta(none), Some(w)),
    )).out.last() == (StreamEventView::Done { stop_reason: chat_stop(w) }) by {
        lemma_written_chunk(text_delta(none), Some(w), d);
        lemma_step_one(
            p,
            written_chunk(text_delta(none), Some(w)),
            ChoiceView { delta: d, finish_reason: Some(w) },
        );
        finish_ends_the_stream(ChatStep { p, out: Seq::empty() }, w);
    }
}

/// The token counts of a chunk are those that the end of the answer reports.
pub proof fn counts_are_reported(p: ChatParserView, v: JVal, usage: JVal, a: u64, b: u64, c: u64)
    requires
        json::member(v, "choices"@) == Some(JVal::Array(Seq::empty())),
        json::member(v, "usage"@) == Some(usage),
        json::member(usage, "prompt_tokens"@) == Some(JVal::UInt(a)),
        json::member(usage, "completion_tokens"@) == Some(JVal::UInt(b)),
        json::member(usage, "total_tokens"@) == Some(JVal::UInt(c)),
        0 < a + b + c <= u64::MAX,
    ensures
        ({
            let n = chunk_step(p, v);
            let end = chunk_step(n.p, written_chunk(text_delta(Seq::empty()), Some("stop"@)));
            &&& n.out.len() == 0
            &&& end.out == seq![
                StreamEventView::Usage {
                    usage: Usage { input: a, output: b, cache_read: 0, cache_write: 0, total: c },
                },
                StreamEventView::Done { stop_reason: StopReason::Stop },
            ]
        }),
{
    lemma_chunk_keys();
    lemma_finish_words();
    assert(decoded_choices(Seq::<JVal>::empty()) == Some(Seq::<ChoiceView>::empty()));
    let n = chunk_step(p, v);
    assert(n.p.input == a && n.p.output == b && n.p.total == c);
    let none = Seq::<char>::empty();
    let d = DeltaView { content: Some(none), tool_calls: None };
    assert(decoded_delta(text_delta(none)) == Some(d));
    lemma_written_chunk(text_delta(none), Some("stop"@), d);
    lemma_step_one(
        n.p,
        written_chunk(text_delta(none), Some("stop"@)),
        ChoiceView { delta: d, finish_reason: Some("stop"@) },
    );
    finish_ends_the_stream(ChatStep { p: n.p, out: Seq::empty() }, "stop"@);
    let end = chunk_step(n.p, written_chunk(text_delta(none), Some("stop"@)));
    assert(end.out =~= seq![
        StreamEventView::Usage {
            usage: Usage { input: a, output: b, cache_read: 0, cache_write: 0, total: c },
        },
        StreamEventView::Done { stop_reason: StopReason::Stop },
    ]);
}

/// A payload is read as the chunk it holds; a blank one, or one that is no JSON, is nothing.
pub proof fn payloads_are_read(p: ChatParserView, line: Seq<char>)
    ensures
        text::trimmed(line).len() == 0 ==> chat_step(p, line) == (ChatStep {
            p,
            out: Seq::empty(),
        }),
        text::trimmed(line).len() > 0 && text::trimmed(line) != "[DONE]"@ && json::parsed(
            text::trimmed(line),
        ) is Err ==> chat_step(p, line) == (ChatStep { p, out: Seq::empty() }),
        text::trimmed(line).len() > 0 && text::trimmed(line) != "[DONE]"@ ==> (json::parsed(
            text::trimmed(line),
        ) matches Ok(v) ==> chat_step(p, line) == chunk_step(p, v)),
{
}

/// Every part adds what it carries to the message and nothing else: a call its call, every
/// other part its text; a tool's answer makes the message one for its call.
pub proof fn parts_add_up(parts: Seq<PartView>, p: PartView)
    ensures
        p is ToolCall ==> part_texts(parts.push(p)) == part_texts(parts),
        !(p is ToolCall) ==> part_texts(parts.push(p)) == part_texts(parts).push(carried(p)),
        p is ToolCall ==> part_calls(parts.push(p)).drop_last() == part_calls(parts),
        !(p is ToolCall) ==> part_calls(parts.push(p)) == part_calls(parts),
        p matches PartView::ToolResult { tool_call_id, is_error, .. } ==> last_result(
            parts.push(p),
        ) == Some((tool_call_id, is_error)),
        !(p is ToolResult) ==> last_result(parts.push(p)) == last_result(parts),
{
    assert(parts.push(p).drop_last() =~= parts);
    if p is ToolCall {
        assert(part_calls(parts.push(p)).drop_last() =~= part_calls(parts));
    }
}

/// An API that is not implemented always refuses, and says which one it is.
pub proof fn pending_apis_refuse(vendor: Seq<char>, api: ApiVariant)
    ensures
        responses_http() is Err,
        pending_http(vendor, api) matches Err(AiErrorView::Other(m)) && m == "服务商 '"@ + vendor
            + " "@ + api.name() + "' 已注册但尚未实现"@,
{
}

/// Without a key nothing is sent, and the error says where to put one; an API that is not there
/// yet says which to use.
pub proof fn keys_are_needed(p: EndpointView, req: ProviderRequestView)
    ensures
        p.api_key.len() == 0 ==> chat_http(p, req) == Err::<HttpRequestView, AiErrorView>(
            AiErrorView::Other(
                "未配置 API 密钥；请通过 --api-key、auth.json 或环境变量设置"@,
            ),
        ),
        responses_http() == Err::<HttpRequestView, AiErrorView>(
            AiErrorView::Other("OpenAI Responses API 尚未实现；请使用 'openai chat'"@),
        ),
{
}

/// Choices, and the calls of a choice, are taken in order, one after the other, and a list can be
/// read exactly where each of its items can.
pub proof fn choices_are_taken_in_order(
    s: ChatStep,
    l: Seq<ChoiceView>,
    c: ChoiceView,
    k: Seq<ToolDeltaView>,
    t: ToolDeltaView,
    values: Seq<JVal>,
    v: JVal,
)
    ensures
        on_choices(s, Seq::empty()) == s,
        on_choices(s, l.push(c)) == on_choice(on_choices(s, l), c),
        on_tools(s, Seq::empty()) == s,
        on_tools(s, k.push(t)) == on_tool(on_tools(s, k), t),
        decoded_choices(values.push(v)) == (match (decoded_choices(values), decoded_choice(v)) {
            (Some(a), Some(b)) => Some(a.push(b)),
            _ => None,
        }),
        decoded_tools(values.push(v)) == (match (decoded_tools(values), decoded_tool(v)) {
            (Some(a), Some(b)) => Some(a.push(b)),
            _ => None,
        }),
{
    assert(l.push(c).drop_last() =~= l);
    assert(k.push(t).drop_last() =~= k);
    assert(values.push(v).drop_last() =~= values);
}

/// A choice of one thing alone.
pub open spec fn choice_of(
    content: Option<Seq<char>>,
    tool_calls: Option<Seq<ToolDeltaView>>,
    finish_reason: Option<Seq<char>>,
) -> ChoiceView {
    ChoiceView { delta: DeltaView { content, tool_calls }, finish_reason }
}

/// A choice tells its text, then its calls, then its end. Text is told as it is, an empty one not
/// at all; what a choice does not hold changes nothing.
pub proof fn choices_end_last(
    s: ChatStep,
    content: Option<Seq<char>>,
    calls: Option<Seq<ToolDeltaView>>,
    finish: Option<Seq<char>>,
    t: Seq<char>,
)
    ensures
        on_choice(s, choice_of(content, calls, finish)) == on_choice(
            on_choice(
                on_choice(s, choice_of(content, None, None)),
                choice_of(None, calls, None),
            ),
            choice_of(None, None, finish),
        ),
        on_choice(s, choice_of(None, None, None)) == s,
        t.len() > 0 ==> on_choice(s, choice_of(Some(t), None, None)) == (ChatStep {
            out: s.out.push(StreamEventView::TextDelta { delta: t }),
            ..s
        }),
        t.len() == 0 ==> on_choice(s, choice_of(Some(t), None, None)) == s,
        calls matches Some(l) ==> on_choice(s, choice_of(None, calls, None)) == on_tools(s, l),
        finish matches Some(w) ==> on_choice(s, choice_of(None, None, finish)) == on_finish(s, w),
{
}

/// A reason to finish that is not known means that the answer is complete.
pub proof fn other_finish_reasons_mean_stop(word: Seq<char>)
    requires
        word != "length"@,
        word != "tool_calls"@,
    ensures
        chat_stop(word) == StopReason::Stop,
{
}

proof fn lemma_record_keys()
    ensures
        "name"@ != "arguments"@,
        "index"@ != "id"@,
        "index"@ != "function"@,
        "id"@ != "function"@,
        "content"@ != "tool_calls"@,
        "delta"@ != "finish_reason"@,
        "choices"@ != "usage"@,
{
    reveal_strlit("name");
    reveal_strlit("arguments");
    reveal_strlit("index");
    reveal_strlit("id");
    reveal_strlit("function");
    reveal_strlit("content");
    reveal_strlit("tool_calls");
    reveal_strlit("delta");
    reveal_strlit("finish_reason");
    reveal_strlit("choices");
    reveal_strlit("usage");
    assert("name"@.len() != "arguments"@.len());
    assert("index"@.len() != "id"@.len());
    assert("index"@.len() != "function"@.len());
    assert("id"@.len() != "function"@.len());
    assert("content"@.len() != "tool_calls"@.len());
    assert("delta"@.len() != "finish_reason"@.len());
    assert("choices"@.len() != "usage"@.len());
}


/// The records of a chunk are read by the names of their members, or by their places where they
/// are written as lists; a list that is too long, and any other value, is none.
pub proof fn records_are_read_by_name_or_place(a: JVal, b: JVal, c: JVal, v: JVal, s: Seq<JVal>)
    ensures
        decoded_function(JVal::Array(seq![a, b])) == decoded_function(
            JVal::Object(map!["name"@ => a, "arguments"@ => b]),
        ),
        decoded_tool(JVal::Array(seq![a, b, c])) == decoded_tool(
            JVal::Object(map!["index"@ => a, "id"@ => b, "function"@ => c]),
        ),
        decoded_delta(JVal::Array(seq![a, b])) == decoded_delta(
            JVal::Object(map!["content"@ => a, "tool_calls"@ => b]),
        ),
        decoded_choice(JVal::Array(seq![a, b])) == decoded_choice(
            JVal::Object(map!["delta"@ => a, "finish_reason"@ => b]),
        ),
        decoded_chunk(JVal::Array(seq![a, b])) == decoded_chunk(
            JVal::Object(map!["choices"@ => a, "usage"@ => b]),
        ),
        s.len() > 2 ==> decoded_function(JVal::Array(s)) is None && decoded_delta(
            JVal::Array(s),
        ) is None && decoded_choice(JVal::Array(s)) is None && decoded_chunk(JVal::Array(s)) is None,
        s.len() > 3 ==> decoded_tool(JVal::Array(s)) is None,
        !(v is Object) && !(v is Array) ==> decoded_function(v) is None && decoded_tool(v) is None
            && decoded_delta(v) is None && decoded_choice(v) is None && decoded_chunk(v) is None,
{
    lemma_record_keys();
}

/// What a record may leave out is missing where it is left out or null; what it must hold makes
/// the record unreadable where it is missing, and so does a value of the wrong kind.
pub proof fn records_need_their_members(m: Map<Seq<char>, JVal>, v: JVal, n: u64)
    ensures
        ({
            let f = decoded_function(JVal::Object(m));
            &&& !m.contains_key("name"@) && !m.contains_key("arguments"@) ==> f == Some(
                FnDeltaView { name: None, arguments: None },
            )
            &&& m.contains_key("name"@) && !(m["name"@] is Str) && !(m["name"@] is Null) ==> f is None
            &&& m.contains_key("arguments"@) && !(m["arguments"@] is Str) && !(m["arguments"@] is Null)
                ==> f is None
        }),
        !m.contains_key("index"@) ==> decoded_tool(JVal::Object(m)) is None,
        m.contains_key("index"@) && !(m["index"@] is UInt) ==> decoded_tool(JVal::Object(m)) is None,
        n <= usize::MAX ==> decoded_tool(
            JVal::Object(map!["index"@ => JVal::UInt(n)]),
        ) == Some(ToolDeltaView { index: n as usize, id: None, function: None }),
        n > usize::MAX ==> decoded_tool(JVal::Object(m.insert("index"@, JVal::UInt(n)))) is None,
        decoded_delta(JVal::Object(Map::empty())) == Some(
            DeltaView { content: None, tool_calls: None },
        ),
        !m.contains_key("delta"@) ==> decoded_choice(JVal::Object(m)) is None,
        !m.contains_key("choices"@) ==> decoded_chunk(JVal::Object(m)) is None,
        m.contains_key("choices"@) && !(m["choices"@] is Array) ==> decoded_chunk(
            JVal::Object(m),
        ) is None,
        decoded_chunk(v) is None ==> forall|p: ChatParserView| #[trigger]
            chunk_step(p, v) == (ChatStep { p, out: Seq::empty() }),
{
    lemma_record_keys();
}

/// Counts that usage leaves out are nothing; without usage the counts stay.
pub proof fn missing_counts_are_nothing(p: ChatParserView)
    ensures
        with_counts(p, None) == p,
        with_counts(p, Some(JVal::Object(Map::empty()))) == (ChatParserView {
            input: 0,
            output: 0,
            total: 0,
            ..p
        }),
        chat_start().input == 0 && chat_start().output == 0 && chat_start().total == 0,
        chat_start().stop == StopReason::Stop && !chat_start().saw_stop,
        chat_start().slots.len() == 0 && chat_start().current is None,
{
}

/// The slots of the calls grow just far enough for the call that is told of: those that are there
/// stay, and the new ones are empty.
pub proof fn slots_grow_as_needed(slots: Seq<(Seq<char>, Seq<char>)>, index: usize, i: int)
    ensures
        index < slots.len() ==> grown(slots, index) == slots,
        index >= slots.len() ==> grown(slots, index).len() == index + 1,
        0 <= i < slots.len() ==> grown(slots, index)[i] == slots[i],
        slots.len() <= i <= index ==> grown(slots, index)[i].0.len() == 0 && grown(
            slots,
            index,
        )[i].1.len() == 0,
{
}

} // verus!
