//! Anthropic Messages API adapter.
//!
//! `message_start` gives input tokens, `message_delta` gives output tokens and the stop
//! reason; a single `Usage` is emitted at `message_stop`.

use crate::error::{AiError, AiErrorView};
use crate::json;
use crate::json::{JVal, Json};
use crate::model;
use crate::model::{ThinkingLevel, Usage};
use crate::request;
use crate::request::{
    ChatMessage, ChatMessageView, HttpRequest, HttpRequestView, Part, PartView, ProviderRequest,
    ProviderRequestView, ToolSpec, ToolSpecView,
};
use crate::stream;
use crate::stream::{StopReason, StreamEvent, StreamEventView};
use crate::text;
use vstd::prelude::*;
use vstd::string::*;

verus! {

/// An Anthropic endpoint with its credentials.
pub struct AnthropicProvider {
    pub base_url: String,
    pub version: String,
    api_key: String,
}

/// What an `AnthropicProvider` denotes.
pub struct AnthropicView {
    pub base_url: Seq<char>,
    pub version: Seq<char>,
    pub api_key: Seq<char>,
}

impl View for AnthropicProvider {
    type V = AnthropicView;

    closed spec fn view(&self) -> AnthropicView {
        AnthropicView {
            base_url: self.base_url@,
            version: self.version@,
            api_key: self.api_key@,
        }
    }
}

impl AnthropicProvider {
    /// A provider for the given URL and key.
    pub fn new(base_url: String, api_key: String) -> (r: Self)
        ensures
            r@ == (AnthropicView {
                base_url: base_url@,
                version: "2023-06-01"@,
                api_key: api_key@,
            }),
    {
        AnthropicProvider { base_url, version: "2023-06-01".to_owned(), api_key }
    }

    /// The key bound when the provider was set up.
    pub fn api_key(&self) -> (r: &str)
        ensures
            r@ == self@.api_key,
    {
        self.api_key.as_str()
    }

    /// The HTTP request for `req`; an error where no key is configured.
    pub fn chat_request(&self, req: &ProviderRequest) -> (r: Result<HttpRequest, AiError>)
        ensures
            request::http_view(r) == anthropic_request(self@, req@),
    {
        if self.api_key.as_str().is_empty() {
            return Err(no_key_error());
        }
        let body = json::render(&request_body(req));
        let mut headers: Vec<(String, String)> = Vec::new();
        headers.push(("x-api-key".to_owned(), self.api_key.clone()));
        headers.push(("anthropic-version".to_owned(), self.version.clone()));
        headers.push(("content-type".to_owned(), "application/json".to_owned()));
        let r = HttpRequest { url: self.base_url.clone(), headers, body };
        assert(r@.headers =~= anthropic_headers(self@));
        Ok(r)
    }
}

impl Default for AnthropicProvider {
    fn default() -> (r: Self)
        ensures
            r@ == (AnthropicView {
                base_url: "https://api.anthropic.com/v1/messages"@,
                version: "2023-06-01"@,
                api_key: Seq::empty(),
            }),
    {
        AnthropicProvider::new("https://api.anthropic.com/v1/messages".to_owned(), String::new())
    }
}

/// The error of an adapter without a key.
pub open spec fn no_key() -> AiErrorView {
    AiErrorView::Other("未配置 API 密钥；请通过 --api-key、auth.json 或环境变量设置"@)
}

/// The error of an adapter without a key.
pub(crate) fn no_key_error() -> (r: AiError)
    ensures
        r@ == no_key(),
{
    AiError::Other("未配置 API 密钥；请通过 --api-key、auth.json 或环境变量设置".to_owned())
}

// ---- request body -------------------------------------------------------------------------

/// A part as a content block.
pub open spec fn content_block(p: PartView) -> JVal {
    match p {
        PartView::Text { text } => JVal::Object(
            map!["type"@ => JVal::Str("text"@), "text"@ => JVal::Str(text)],
        ),
        PartView::Thinking { thinking } => JVal::Object(
            map!["type"@ => JVal::Str("thinking"@), "thinking"@ => JVal::Str(thinking)],
        ),
        PartView::ToolCall { id, name, arguments } => JVal::Object(
            map![
                "type"@ => JVal::Str("tool_use"@),
                "id"@ => JVal::Str(id),
                "name"@ => JVal::Str(name),
                "input"@ => json::parsed_or_null(arguments),
            ],
        ),
        PartView::ToolResult { tool_call_id, content, is_error } => JVal::Object(
            map![
                "type"@ => JVal::Str("tool_result"@),
                "tool_use_id"@ => JVal::Str(tool_call_id),
                "content"@ => JVal::Str(content),
                "is_error"@ => JVal::Bool(is_error),
            ],
        ),
    }
}

/// A message as a role with its content blocks.
pub open spec fn content_message(m: ChatMessageView) -> JVal {
    JVal::Object(
        map![
            "role"@ => JVal::Str(m.role),
            "content"@ => JVal::Array(m.parts.map_values(|p: PartView| content_block(p))),
        ],
    )
}

/// A tool as the API wants it.
pub open spec fn tool_block(t: ToolSpecView) -> JVal {
    JVal::Object(
        map![
            "name"@ => JVal::Str(t.name),
            "description"@ => JVal::Str(t.description),
            "input_schema"@ => t.input_schema,
        ],
    )
}

/// The request body: `tools` only where there are tools, `thinking` only where it is on.
pub open spec fn anthropic_body(req: ProviderRequestView) -> JVal {
    let base = map![
        "model"@ => JVal::Str(req.model.id),
        "max_tokens"@ => JVal::UInt(req.max_tokens as u64),
        "system"@ => JVal::Str(req.system),
        "messages"@ => JVal::Array(
            req.messages.map_values(|m: ChatMessageView| content_message(m)),
        ),
        "stream"@ => JVal::Bool(true),
    ];
    let with_tools = if req.tools.len() > 0 {
        base.insert(
            "tools"@,
            JVal::Array(req.tools.map_values(|t: ToolSpecView| tool_block(t))),
        )
    } else {
        base
    };
    JVal::Object(
        if req.thinking is Off {
            with_tools
        } else {
            with_tools.insert(
                "thinking"@,
                JVal::Object(
                    map!["type"@ => JVal::Str("enabled"@), "budget_tokens"@ => JVal::UInt(2048)],
                ),
            )
        },
    )
}

/// The headers of every request.
pub open spec fn anthropic_headers(p: AnthropicView) -> Seq<(Seq<char>, Seq<char>)> {
    seq![
        ("x-api-key"@, p.api_key),
        ("anthropic-version"@, p.version),
        ("content-type"@, "application/json"@),
    ]
}

/// The HTTP request that a provider sends.
pub open spec fn anthropic_request(p: AnthropicView, req: ProviderRequestView) -> Result<
    HttpRequestView,
    AiErrorView,
> {
    if p.api_key.len() == 0 {
        Err(no_key())
    } else {
        Ok(
            HttpRequestView {
                url: p.base_url,
                headers: anthropic_headers(p),
                body: json::rendered(anthropic_body(req)),
            },
        )
    }
}

fn block_of(part: &Part) -> (r: Json)
    ensures
        r@ == content_block(part@),
{
    match part {
        Part::Text { text } => Json::object().with("type", Json::of_str("text")).with(
            "text",
            Json::of_str(text.as_str()),
        ),
        Part::Thinking { thinking } => Json::object().with("type", Json::of_str("thinking")).with(
            "thinking",
            Json::of_str(thinking.as_str()),
        ),
        Part::ToolCall { id, name, arguments } => Json::object().with(
            "type",
            Json::of_str("tool_use"),
        ).with("id", Json::of_str(id.as_str())).with("name", Json::of_str(name.as_str())).with(
            "input",
            json::parse_or_null(arguments.as_str()),
        ),
        Part::ToolResult { tool_call_id, content, is_error } => Json::object().with(
            "type",
            Json::of_str("tool_result"),
        ).with("tool_use_id", Json::of_str(tool_call_id.as_str())).with(
            "content",
            Json::of_str(content.as_str()),
        ).with("is_error", Json::Bool(*is_error)),
    }
}

/// Converts a message into an Anthropic content array.
pub fn conv_message(m: &ChatMessage) -> (r: Json)
    ensures
        r@ == content_message(m@),
{
    let ghost want = m@.parts.map_values(|p: PartView| content_block(p));
    let mut content: Vec<Json> = Vec::new();
    let mut i: usize = 0;
    assert(want.take(0) =~= Seq::<JVal>::empty());
    while i < m.parts.len()
        invariant
            i <= m.parts@.len(),
            want == m@.parts.map_values(|p: PartView| content_block(p)),
            json::items_view(content@) == want.take(i as int),
        decreases m.parts@.len() - i,
    {
        let b = block_of(&m.parts[i]);
        proof {
            json::lemma_items_push(content@, b);
            assert(want.take(i + 1) =~= want.take(i as int).push(b@));
        }
        content.push(b);
        i += 1;
    }
    assert(want.take(m.parts@.len() as int) =~= want);
    Json::object().with("role", Json::of_str(m.role.as_str())).with("content", Json::array(content))
}

fn tool_of(t: &ToolSpec) -> (r: Json)
    ensures
        r@ == tool_block(t@),
{
    Json::object().with("name", Json::of_str(t.name.as_str())).with(
        "description",
        Json::of_str(t.description.as_str()),
    ).with("input_schema", t.input_schema.clone())
}

/// The request body.
pub fn request_body(req: &ProviderRequest) -> (r: Json)
    ensures
        r@ == anthropic_body(req@),
{
    let ghost want = req@.messages.map_values(|m: ChatMessageView| content_message(m));
    let mut messages: Vec<Json> = Vec::new();
    let mut i: usize = 0;
    assert(want.take(0) =~= Seq::<JVal>::empty());
    while i < req.messages.len()
        invariant
            i <= req.messages@.len(),
            want == req@.messages.map_values(|m: ChatMessageView| content_message(m)),
            json::items_view(messages@) == want.take(i as int),
        decreases req.messages@.len() - i,
    {
        let b = conv_message(&req.messages[i]);
        proof {
            json::lemma_items_push(messages@, b);
            assert(want.take(i + 1) =~= want.take(i as int).push(b@));
        }
        messages.push(b);
        i += 1;
    }
    assert(want.take(req.messages@.len() as int) =~= want);
    let ghost want_tools = req@.tools.map_values(|t: ToolSpecView| tool_block(t));
    let mut tools: Vec<Json> = Vec::new();
    let mut k: usize = 0;
    assert(want_tools.take(0) =~= Seq::<JVal>::empty());
    while k < req.tools.len()
        invariant
            k <= req.tools@.len(),
            want_tools == req@.tools.map_values(|t: ToolSpecView| tool_block(t)),
            json::items_view(tools@) == want_tools.take(k as int),
            tools@.len() == k,
        decreases req.tools@.len() - k,
    {
        let b = tool_of(&req.tools[k]);
        proof {
            json::lemma_items_push(tools@, b);
            assert(want_tools.take(k + 1) =~= want_tools.take(k as int).push(b@));
        }
        tools.push(b);
        k += 1;
    }
    assert(want_tools.take(req.tools@.len() as int) =~= want_tools);
    let mut body = Json::object().with("model", Json::of_str(req.model.id.as_str())).with(
        "max_tokens",
        Json::UInt(req.max_tokens as u64),
    ).with("system", Json::of_str(req.system.as_str())).with(
        "messages",
        Json::array(messages),
    ).with("stream", Json::Bool(true));
    if tools.len() > 0 {
        body = body.with("tools", Json::array(tools));
    }
    match req.thinking {
        ThinkingLevel::Off => body,
        _ => body.with(
            "thinking",
            Json::object().with("type", Json::of_str("enabled")).with(
                "budget_tokens",
                Json::UInt(2048),
            ),
        ),
    }
}

// ---- events ---------------------------------------------------------------------------------

/// What the event stream has told so far.
pub struct AnthropicParser {
    pub input_tokens: u64,
    pub output_tokens: u64,
    pub cache_read: u64,
    pub cache_write: u64,
    pub last_stop: StopReason,
}

impl Default for AnthropicParser {
    fn default() -> (r: Self)
        ensures
            r == (AnthropicParser {
                input_tokens: 0,
                output_tokens: 0,
                cache_read: 0,
                cache_write: 0,
                last_stop: StopReason::Stop,
            }),
    {
        AnthropicParser {
            input_tokens: 0,
            output_tokens: 0,
            cache_read: 0,
            cache_write: 0,
            last_stop: StopReason::default(),
        }
    }
}

/// The stop reason that the API's word names; unknown words count as a plain stop.
pub open spec fn anthropic_stop(word: Seq<char>) -> StopReason {
    if word == "max_tokens"@ {
        StopReason::Length
    } else if word == "tool_use"@ {
        StopReason::ToolUse
    } else {
        StopReason::Stop
    }
}

/// The usage that a parser's state adds up to. The total wraps around at 2^64.
pub open spec fn anthropic_usage(p: AnthropicParser) -> Usage {
    Usage {
        input: p.input_tokens,
        output: p.output_tokens,
        cache_read: p.cache_read,
        cache_write: p.cache_write,
        total: model::wrapped_sum(
            model::wrapped_sum(
                model::wrapped_sum(p.input_tokens, p.output_tokens),
                p.cache_read,
            ),
            p.cache_write,
        ),
    }
}

/// The event that a content delta stands for.
pub open spec fn delta_event(event: JVal, delta: JVal) -> Option<StreamEventView> {
    let kind = json::opt_str_value(json::member(delta, "type"@));
    if kind == Some("text_delta"@) {
        Some(
            StreamEventView::TextDelta { delta: json::str_or_empty(json::member(delta, "text"@)) },
        )
    } else if kind == Some("thinking_delta"@) {
        Some(
            StreamEventView::ThinkingDelta {
                delta: json::str_or_empty(json::member(delta, "thinking"@)),
            },
        )
    } else if kind == Some("input_json_delta"@) {
        Some(
            StreamEventView::ToolCallArgsDelta {
                id: text::decimal(json::uint_or_zero(json::member(event, "index"@)) as nat),
                delta: json::str_or_empty(json::member(delta, "partial_json"@)),
            },
        )
    } else {
        None
    }
}

/// The events that an API event of type `kind` stands for.
pub open spec fn anthropic_events(p: AnthropicParser, kind: Seq<char>, event: JVal) -> Seq<
    StreamEventView,
> {
    if kind == "content_block_start"@ {
        match json::member(event, "content_block"@) {
            Some(cb) => if json::opt_str_value(json::member(cb, "type"@)) == Some("tool_use"@) {
                seq![
                    StreamEventView::ToolCallStarted {
                        id: json::str_or_empty(json::member(cb, "id"@)),
                        name: json::str_or_empty(json::member(cb, "name"@)),
                    },
                ]
            } else {
                Seq::empty()
            },
            None => Seq::empty(),
        }
    } else if kind == "content_block_delta"@ {
        match json::member(event, "delta"@) {
            Some(delta) => match delta_event(event, delta) {
                Some(e) => seq![e],
                None => Seq::empty(),
            },
            None => Seq::empty(),
        }
    } else if kind == "message_stop"@ {
        seq![
            StreamEventView::Usage { usage: anthropic_usage(p) },
            StreamEventView::Done { stop_reason: p.last_stop },
        ]
    } else {
        Seq::empty()
    }
}

/// The parser's state after an API event of type `kind`.
pub open spec fn anthropic_next(
    p: AnthropicParser,
    kind: Seq<char>,
    event: JVal,
) -> AnthropicParser {
    if kind == "message_start"@ {
        match json::opt_member(json::member(event, "message"@), "usage"@) {
            Some(u) => AnthropicParser {
                input_tokens: json::uint_or_zero(json::member(u, "input_tokens"@)),
                cache_read: json::uint_or_zero(json::member(u, "cache_read_input_tokens"@)),
                cache_write: json::uint_or_zero(json::member(u, "cache_creation_input_tokens"@)),
                ..p
            },
            None => p,
        }
    } else if kind == "message_delta"@ {
        AnthropicParser {
            output_tokens: match json::member(event, "usage"@) {
                Some(u) => json::uint_or_zero(json::member(u, "output_tokens"@)),
                None => p.output_tokens,
            },
            last_stop: anthropic_stop(
                json::str_or_empty(
                    json::opt_member(json::member(event, "delta"@), "stop_reason"@),
                ),
            ),
            ..p
        }
    } else {
        p
    }
}

/// The type of an event: an object with a string member `type`.
pub open spec fn event_kind(event: JVal) -> Option<Seq<char>> {
    json::opt_str_value(json::member(event, "type"@))
}

/// The event in a payload, with its type. Blank payloads, and those that are not the JSON
/// of an event, hold none.
pub open spec fn anthropic_event(line: Seq<char>) -> Option<(Seq<char>, JVal)> {
    if text::trimmed(line).len() == 0 {
        None
    } else {
        match json::parsed(line) {
            Ok(event) => match event_kind(event) {
                Some(kind) => Some((kind, event)),
                None => None,
            },
            Err(_) => None,
        }
    }
}

/// The parser's state after a decoded payload.
pub open spec fn event_fed(p: AnthropicParser, event: JVal) -> AnthropicParser {
    match event_kind(event) {
        Some(kind) => anthropic_next(p, kind, event),
        None => p,
    }
}

/// The events that a decoded payload stands for.
pub open spec fn event_emitted(p: AnthropicParser, event: JVal) -> Seq<StreamEventView> {
    match event_kind(event) {
        Some(kind) => anthropic_events(p, kind, event),
        None => Seq::empty(),
    }
}

/// The parser's state after a payload.
pub open spec fn anthropic_fed(p: AnthropicParser, line: Seq<char>) -> AnthropicParser {
    match anthropic_event(line) {
        Some((kind, event)) => anthropic_next(p, kind, event),
        None => p,
    }
}

/// The events that a payload stands for.
pub open spec fn anthropic_emitted(p: AnthropicParser, line: Seq<char>) -> Seq<StreamEventView> {
    match anthropic_event(line) {
        Some((kind, event)) => anthropic_events(p, kind, event),
        None => Seq::empty(),
    }
}

impl AnthropicParser {
    /// Takes in one payload and returns the events it stands for. The payload is read as a
    /// JSON value, which holds each member once: where the text repeats one, the later counts.
    pub fn feed(&mut self, line: &str) -> (r: Vec<StreamEvent>)
        ensures
            *final(self) == anthropic_fed(*old(self), line@),
            stream::event_views(r@) == anthropic_emitted(*old(self), line@),
    {
        let none: Vec<StreamEvent> = Vec::new();
        assert(stream::event_views(none@) =~= Seq::empty());
        if text::is_blank(line) {
            return none;
        }
        match json::parse(line) {
            Ok(event) => self.feed_event(&event),
            Err(_) => none,
        }
    }

    /// Takes in one API event and returns the events it stands for.
    pub fn feed_event(&mut self, event: &Json) -> (r: Vec<StreamEvent>)
        ensures
            *final(self) == event_fed(*old(self), event@),
            stream::event_views(r@) == event_emitted(*old(self), event@),
    {
        let mut out: Vec<StreamEvent> = Vec::new();
        assert(stream::event_views(out@) =~= Seq::empty());
        let kind = match event.opt_text_member("type") {
            Some(k) => k,
            None => {
                return out;
            },
        };
        let kind = kind.as_str();
        if text::str_eq(kind, "content_block_start") {
            if let Some(cb) = event.get("content_block") {
                if is_kind(cb, "tool_use") {
                    out.push(
                        StreamEvent::ToolCallStarted {
                            id: cb.text_member("id"),
                            name: cb.text_member("name"),
                        },
                    );
                    assert(stream::event_views(out@) =~= anthropic_events(*self, kind@, event@));
                }
            }
        } else if text::str_eq(kind, "content_block_delta") {
            if let Some(delta) = event.get("delta") {
                if let Some(e) = delta_of(event, delta) {
                    out.push(e);
                    assert(stream::event_views(out@) =~= anthropic_events(*self, kind@, event@));
                }
            }
        } else if text::str_eq(kind, "message_stop") {
            let usage = Usage {
                input: self.input_tokens,
                output: self.output_tokens,
                cache_read: self.cache_read,
                cache_write: self.cache_write,
                total: self.input_tokens.wrapping_add(self.output_tokens).wrapping_add(
                    self.cache_read,
                ).wrapping_add(self.cache_write),
            };
            out.push(StreamEvent::Usage { usage });
            out.push(StreamEvent::Done { stop_reason: self.last_stop });
            assert(stream::event_views(out@) =~= anthropic_events(*self, kind@, event@));
        } else if text::str_eq(kind, "message_start") {
            if let Some(m) = event.get("message") {
                if let Some(u) = m.get("usage") {
                    self.input_tokens = u.uint_member("input_tokens");
                    self.cache_read = u.uint_member("cache_read_input_tokens");
                    self.cache_write = u.uint_member("cache_creation_input_tokens");
                }
            }
        } else if text::str_eq(kind, "message_delta") {
            if let Some(u) = event.get("usage") {
                self.output_tokens = u.uint_member("output_tokens");
            }
            let stop = match event.get("delta") {
                Some(d) => d.text_member("stop_reason"),
                None => String::new(),
            };
            self.last_stop = stop_of(stop.as_str());
        }
        proof {
            distinct_event_kinds();
        }
        out
    }
}

/// The event types that the parser tells apart are different words.
proof fn distinct_event_kinds()
    ensures
        "message_start"@ != "content_block_start"@,
        "message_start"@ != "content_block_delta"@,
        "message_start"@ != "message_stop"@,
        "message_delta"@ != "content_block_start"@,
        "message_delta"@ != "content_block_delta"@,
        "message_delta"@ != "message_stop"@,
        "message_start"@ != "message_delta"@,
{
    reveal_strlit("message_start");
    reveal_strlit("message_delta");
    reveal_strlit("message_stop");
    reveal_strlit("content_block_start");
    reveal_strlit("content_block_delta");
    assert("message_start"@[8] != "message_delta"@[8]);
    assert("message_start"@.len() != "message_stop"@.len());
}

fn is_kind(j: &Json, kind: &str) -> (r: bool)
    ensures
        r == (json::opt_str_value(json::member(j@, "type"@)) == Some(kind@)),
{
    match j.opt_text_member("type") {
        Some(k) => text::str_eq(k.as_str(), kind),
        None => false,
    }
}

fn stop_of(word: &str) -> (r: StopReason)
    ensures
        r == anthropic_stop(word@),
{
    if text::str_eq(word, "max_tokens") {
        StopReason::Length
    } else if text::str_eq(word, "tool_use") {
        StopReason::ToolUse
    } else {
        StopReason::Stop
    }
}

fn delta_of(event: &Json, delta: &Json) -> (r: Option<StreamEvent>)
    ensures
        (match r {
            Some(e) => Some(e@),
            None => None,
        }) == delta_event(event@, delta@),
{
    if is_kind(delta, "text_delta") {
        Some(StreamEvent::TextDelta { delta: delta.text_member("text") })
    } else if is_kind(delta, "thinking_delta") {
        Some(StreamEvent::ThinkingDelta { delta: delta.text_member("thinking") })
    } else if is_kind(delta, "input_json_delta") {
        Some(
            StreamEvent::ToolCallArgsDelta {
                id: text::u64_text(event.uint_member("index")),
                delta: delta.text_member("partial_json"),
            },
        )
    } else {
        None
    }
}

// ---- laws -----------------------------------------------------------------------------------

/// The events of a whole stream of payloads.
pub open spec fn anthropic_all(p: AnthropicParser, lines: Seq<Seq<char>>) -> Seq<StreamEventView>
    decreases lines.len(),
{
    if lines.len() == 0 {
        Seq::empty()
    } else {
        anthropic_emitted(p, lines[0]) + anthropic_all(
            anthropic_fed(p, lines[0]),
            lines.drop_first(),
        )
    }
}

/// The number of payloads that are `message_stop` events.
pub open spec fn stop_count(lines: Seq<Seq<char>>) -> nat
    decreases lines.len(),
{
    if lines.len() == 0 {
        0
    } else {
        let head: nat = match anthropic_event(lines[0]) {
            Some((kind, _)) => if kind == "message_stop"@ {
                1
            } else {
                0
            },
            None => 0,
        };
        head + stop_count(lines.drop_first())
    }
}

/// The number of usage events.
pub open spec fn usage_count(events: Seq<StreamEventView>) -> nat
    decreases events.len(),
{
    if events.len() == 0 {
        0
    } else {
        (if events.last() is Usage {
            1nat
        } else {
            0nat
        }) + usage_count(events.drop_last())
    }
}

proof fn lemma_usage_count_concat(a: Seq<StreamEventView>, b: Seq<StreamEventView>)
    ensures
        usage_count(a + b) == usage_count(a) + usage_count(b),
    decreases b.len(),
{
    if b.len() == 0 {
        assert(a + b =~= a);
    } else {
        lemma_usage_count_concat(a, b.drop_last());
        assert((a + b).drop_last() =~= a + b.drop_last());
    }
}

/// Usage is emitted once per `message_stop`, and never elsewhere.
pub proof fn usage_once_per_message_stop(p: AnthropicParser, lines: Seq<Seq<char>>)
    ensures
        usage_count(anthropic_all(p, lines)) == stop_count(lines),
    decreases lines.len(),
{
    if lines.len() > 0 {
        usage_once_per_message_stop(anthropic_fed(p, lines[0]), lines.drop_first());
        let head = anthropic_emitted(p, lines[0]);
        lemma_usage_count_concat(
            head,
            anthropic_all(anthropic_fed(p, lines[0]), lines.drop_first()),
        );
        distinct_event_kinds();
        reveal_strlit("message_stop");
        reveal_strlit("content_block_start");
        reveal_strlit("content_block_delta");
        assert("message_stop"@.len() != "content_block_start"@.len());
        assert("message_stop"@.len() != "content_block_delta"@.len());
        reveal_with_fuel(usage_count, 3);
        if head.len() == 2 {
            assert(head.drop_last()[0] == head[0]);
        }
    }
}

/// The stream is ended once per `message_stop`, and never elsewhere.
pub proof fn done_once_per_message_stop(p: AnthropicParser, lines: Seq<Seq<char>>)
    ensures
        stream::done_count(anthropic_all(p, lines)) == stop_count(lines),
    decreases lines.len(),
{
    if lines.len() > 0 {
        done_once_per_message_stop(anthropic_fed(p, lines[0]), lines.drop_first());
        let head = anthropic_emitted(p, lines[0]);
        stream::lemma_done_count_concat(
            head,
            anthropic_all(anthropic_fed(p, lines[0]), lines.drop_first()),
        );
        reveal_strlit("message_stop");
        reveal_strlit("content_block_start");
        reveal_strlit("content_block_delta");
        assert("message_stop"@.len() != "content_block_start"@.len());
        assert("message_stop"@.len() != "content_block_delta"@.len());
        reveal_with_fuel(stream::done_count, 3);
        if head.len() == 2 {
            assert(head.drop_last()[0] == head[0]);
        }
    }
}

proof fn lemma_all_kinds()
    ensures
        "message_start"@ != "message_delta"@,
        "message_start"@ != "message_stop"@,
        "message_start"@ != "content_block_start"@,
        "message_start"@ != "content_block_delta"@,
        "message_delta"@ != "message_stop"@,
        "message_delta"@ != "content_block_start"@,
        "message_delta"@ != "content_block_delta"@,
        "message_stop"@ != "content_block_start"@,
        "message_stop"@ != "content_block_delta"@,
        "content_block_start"@ != "content_block_delta"@,
{
    reveal_strlit("message_start");
    reveal_strlit("message_delta");
    reveal_strlit("message_stop");
    reveal_strlit("content_block_start");
    reveal_strlit("content_block_delta");
    assert("message_start"@[8] != "message_delta"@[8]);
    assert("message_start"@.len() != "message_stop"@.len());
    assert("message_start"@.len() != "content_block_start"@.len());
    assert("message_start"@.len() != "content_block_delta"@.len());
    assert("message_delta"@.len() != "message_stop"@.len());
    assert("message_delta"@.len() != "content_block_start"@.len());
    assert("message_delta"@.len() != "content_block_delta"@.len());
    assert("message_stop"@.len() != "content_block_start"@.len());
    assert("message_stop"@.len() != "content_block_delta"@.len());
    assert("content_block_start"@[14] != "content_block_delta"@[14]);
}

proof fn lemma_delta_kinds()
    ensures
        "text_delta"@ != "thinking_delta"@,
        "text_delta"@ != "input_json_delta"@,
        "thinking_delta"@ != "input_json_delta"@,
{
    reveal_strlit("text_delta");
    reveal_strlit("thinking_delta");
    reveal_strlit("input_json_delta");
    assert("text_delta"@.len() != "thinking_delta"@.len());
    assert("text_delta"@.len() != "input_json_delta"@.len());
    assert("thinking_delta"@.len() != "input_json_delta"@.len());
}

proof fn lemma_stop_words()
    ensures
        "end_turn"@ != "max_tokens"@,
        "end_turn"@ != "tool_use"@,
        "max_tokens"@ != "tool_use"@,
{
    reveal_strlit("end_turn");
    reveal_strlit("max_tokens");
    reveal_strlit("tool_use");
    assert("end_turn"@.len() != "max_tokens"@.len());
    assert("end_turn"@[0] != "tool_use"@[0]);
    assert("max_tokens"@.len() != "tool_use"@.len());
}


/// What a payload holds decides what comes of it: nothing of a blank one or of one that is no
/// JSON, and of any other what its value stands for.
pub proof fn payloads_are_read(p: AnthropicParser, line: Seq<char>)
    ensures
        text::trimmed(line).len() == 0 || json::parsed(line) is Err ==> anthropic_fed(p, line) == p
            && anthropic_emitted(p, line).len() == 0,
        text::trimmed(line).len() > 0 && json::parsed(line) is Ok ==> anthropic_fed(p, line)
            == event_fed(p, json::parsed(line)->Ok_0) && anthropic_emitted(p, line)
            == event_emitted(p, json::parsed(line)->Ok_0),
{
}

/// Whether a value is a content delta of the given kind, whose text stands under `key`.
pub open spec fn is_delta(event: JVal, kind: Seq<char>, key: Seq<char>, t: Seq<char>) -> bool {
    &&& json::member(event, "type"@) == Some(JVal::Str("content_block_delta"@))
    &&& json::member(event, "delta"@) matches Some(d) && json::member(d, "type"@) == Some(
        JVal::Str(kind),
    ) && json::member(d, key) == Some(JVal::Str(t))
}

/// A content delta is one event that carries its text whole: text as text, thinking as
/// thinking, and a piece of JSON as a fragment of arguments, under the block's index. The
/// state stays.
pub proof fn deltas_carry_their_text(p: AnthropicParser, event: JVal, t: Seq<char>)
    ensures
        is_delta(event, "text_delta"@, "text"@, t) ==> event_emitted(p, event) == seq![
            StreamEventView::TextDelta { delta: t },
        ] && event_fed(p, event) == p,
        is_delta(event, "thinking_delta"@, "thinking"@, t) ==> event_emitted(p, event) == seq![
            StreamEventView::ThinkingDelta { delta: t },
        ] && event_fed(p, event) == p,
        is_delta(event, "input_json_delta"@, "partial_json"@, t) ==> {
            &&& event_emitted(p, event).len() == 1
            &&& event_emitted(p, event)[0] matches StreamEventView::ToolCallArgsDelta {
                id,
                delta,
            } && delta == t && (json::member(event, "index"@) matches Some(JVal::UInt(n)) ==> id
                == text::decimal(n as nat))
            &&& event_fed(p, event) == p
        },
{
    lemma_all_kinds();
    lemma_delta_kinds();
}

/// The events of a list of decoded payloads.
pub open spec fn events_emitted(p: AnthropicParser, events: Seq<JVal>) -> Seq<StreamEventView>
    decreases events.len(),
{
    if events.len() == 0 {
        Seq::empty()
    } else {
        event_emitted(p, events[0]) + events_emitted(event_fed(p, events[0]), events.drop_first())
    }
}

/// The argument fragments among events, one after the other.
pub open spec fn fragments(s: Seq<StreamEventView>) -> Seq<char>
    decreases s.len(),
{
    if s.len() == 0 {
        Seq::empty()
    } else {
        match s[0] {
            StreamEventView::ToolCallArgsDelta { delta, .. } => delta + fragments(s.drop_first()),
            _ => fragments(s.drop_first()),
        }
    }
}

/// The texts among events, one after the other.
pub open spec fn texts(s: Seq<StreamEventView>) -> Seq<char>
    decreases s.len(),
{
    if s.len() == 0 {
        Seq::empty()
    } else {
        match s[0] {
            StreamEventView::TextDelta { delta } => delta + texts(s.drop_first()),
            _ => texts(s.drop_first()),
        }
    }
}

/// The pieces, one after the other.
pub open spec fn pieces_joined(s: Seq<Seq<char>>) -> Seq<char>
    decreases s.len(),
{
    if s.len() == 0 {
        Seq::empty()
    } else {
        s[0] + pieces_joined(s.drop_first())
    }
}

/// Over a block, whatever pieces it comes in, nothing is lost: the fragments of arguments that
/// are emitted make up the block's JSON, and the texts make up its text.
pub proof fn blocks_stream_whole(p: AnthropicParser, events: Seq<JVal>, pieces: Seq<Seq<char>>)
    requires
        events.len() == pieces.len(),
    ensures
        (forall|i: int|
            0 <= i < events.len() ==> is_delta(
                #[trigger] events[i],
                "input_json_delta"@,
                "partial_json"@,
                pieces[i],
            )) ==> fragments(events_emitted(p, events)) == pieces_joined(pieces),
        (forall|i: int|
            0 <= i < events.len() ==> is_delta(
                #[trigger] events[i],
                "text_delta"@,
                "text"@,
                pieces[i],
            )) ==> texts(events_emitted(p, events)) == pieces_joined(pieces),
    decreases events.len(),
{
    let json_block = forall|i: int|
        0 <= i < events.len() ==> is_delta(
            #[trigger] events[i],
            "input_json_delta"@,
            "partial_json"@,
            pieces[i],
        );
    let text_block = forall|i: int|
        0 <= i < events.len() ==> is_delta(
            #[trigger] events[i],
            "text_delta"@,
            "text"@,
            pieces[i],
        );
    if events.len() > 0 && (json_block || text_block) {
        let rest = events.drop_first();
        let tail = pieces.drop_first();
        deltas_carry_their_text(p, events[0], pieces[0]);
        assert(event_fed(p, events[0]) == p);
        if json_block {
            assert forall|i: int| 0 <= i < rest.len() implies is_delta(
                #[trigger] rest[i],
                "input_json_delta"@,
                "partial_json"@,
                tail[i],
            ) by {
                assert(rest[i] == events[i + 1]);
            }
        }
        if text_block {
            assert forall|i: int| 0 <= i < rest.len() implies is_delta(
                #[trigger] rest[i],
                "text_delta"@,
                "text"@,
                tail[i],
            ) by {
                assert(rest[i] == events[i + 1]);
            }
        }
        blocks_stream_whole(p, rest, tail);
        let all = events_emitted(p, events);
        assert(all.drop_first() =~= events_emitted(p, rest));
        assert(all[0] == event_emitted(p, events[0])[0]);
    }
}

/// A block that begins a tool call is announced with the call's id and name; the beginning of
/// any other block is not.
pub proof fn tool_calls_are_announced(
    p: AnthropicParser,
    event: JVal,
    block: JVal,
    id: Seq<char>,
    name: Seq<char>,
)
    requires
        json::member(event, "type"@) == Some(JVal::Str("content_block_start"@)),
        json::member(event, "content_block"@) == Some(block),
    ensures
        json::member(block, "type"@) == Some(JVal::Str("tool_use"@)) && json::member(block, "id"@)
            == Some(JVal::Str(id)) && json::member(block, "name"@) == Some(JVal::Str(name))
            ==> event_emitted(p, event) == seq![StreamEventView::ToolCallStarted { id, name }],
        json::member(block, "type"@) != Some(JVal::Str("tool_use"@)) ==> event_emitted(
            p,
            event,
        ).len() == 0,
        event_fed(p, event) == p,
{
    lemma_all_kinds();
}

/// The start of a message tells the input tokens and those of the cache; its last delta tells
/// the output tokens and why it stopped. Neither emits anything, and neither touches what the
/// other tells.
pub proof fn messages_tell_their_usage(
    p: AnthropicParser,
    event: JVal,
    message: JVal,
    usage: JVal,
    a: u64,
    b: u64,
    c: u64,
)
    ensures
        json::member(event, "type"@) == Some(JVal::Str("message_start"@)) && json::member(
            event,
            "message"@,
        ) == Some(message) && json::member(message, "usage"@) == Some(usage) && json::member(
            usage,
            "input_tokens"@,
        ) == Some(JVal::UInt(a)) && json::member(usage, "cache_read_input_tokens"@) == Some(
            JVal::UInt(b),
        ) && json::member(usage, "cache_creation_input_tokens"@) == Some(JVal::UInt(c)) ==> {
            let n = event_fed(p, event);
            &&& n.input_tokens == a && n.cache_read == b && n.cache_write == c
            &&& n.output_tokens == p.output_tokens && n.last_stop == p.last_stop
            &&& event_emitted(p, event).len() == 0
        },
        json::member(event, "type"@) == Some(JVal::Str("message_delta"@)) && json::member(
            event,
            "usage"@,
        ) == Some(usage) && json::member(usage, "output_tokens"@) == Some(JVal::UInt(a)) ==> {
            let n = event_fed(p, event);
            &&& n.output_tokens == a
            &&& n.input_tokens == p.input_tokens && n.cache_read == p.cache_read && n.cache_write
                == p.cache_write
            &&& event_emitted(p, event).len() == 0
        },
{
    lemma_all_kinds();
}

/// Why a message stopped is read off its last delta: the end of the turn is a plain stop, the
/// token limit a cut, and tool use a stop for tools.
pub proof fn stop_reasons_are_read(p: AnthropicParser, event: JVal, delta: JVal)
    requires
        json::member(event, "type"@) == Some(JVal::Str("message_delta"@)),
        json::member(event, "delta"@) == Some(delta),
    ensures
        json::member(delta, "stop_reason"@) == Some(JVal::Str("end_turn"@)) ==> event_fed(
            p,
            event,
        ).last_stop == StopReason::Stop,
        json::member(delta, "stop_reason"@) == Some(JVal::Str("max_tokens"@)) ==> event_fed(
            p,
            event,
        ).last_stop == StopReason::Length,
        json::member(delta, "stop_reason"@) == Some(JVal::Str("tool_use"@)) ==> event_fed(
            p,
            event,
        ).last_stop == StopReason::ToolUse,
{
    lemma_all_kinds();
    lemma_stop_words();
}

/// The end of a message tells all that the stream told of it: first the usage, whose total is
/// the sum of its counts, then the stop reason. It does not change the state.
pub proof fn message_stop_tells_the_totals(p: AnthropicParser, event: JVal)
    requires
        json::member(event, "type"@) == Some(JVal::Str("message_stop"@)),
    ensures
        event_fed(p, event) == p,
        event_emitted(p, event).len() == 2,
        event_emitted(p, event)[0] matches StreamEventView::Usage { usage } && usage.input
            == p.input_tokens && usage.output == p.output_tokens && usage.cache_read
            == p.cache_read && usage.cache_write == p.cache_write && (p.input_tokens
            + p.output_tokens + p.cache_read + p.cache_write <= u64::MAX ==> usage.total
            == p.input_tokens + p.output_tokens + p.cache_read + p.cache_write),
        event_emitted(p, event)[1] == (StreamEventView::Done { stop_reason: p.last_stop }),
{
    lemma_all_kinds();
}

/// Payloads of other types neither emit anything nor change the state.
pub proof fn other_payloads_are_ignored(p: AnthropicParser, event: JVal)
    requires
        json::member(event, "type"@) != Some(JVal::Str("message_start"@)),
        json::member(event, "type"@) != Some(JVal::Str("message_delta"@)),
        json::member(event, "type"@) != Some(JVal::Str("message_stop"@)),
        json::member(event, "type"@) != Some(JVal::Str("content_block_start"@)),
        json::member(event, "type"@) != Some(JVal::Str("content_block_delta"@)),
    ensures
        event_fed(p, event) == p,
        event_emitted(p, event).len() == 0,
{
}
proof fn lemma_body_keys()
    ensures
        "type"@ != "text"@,
        "type"@ != "thinking"@,
        "type"@ != "id"@,
        "type"@ != "name"@,
        "type"@ != "input"@,
        "id"@ != "name"@,
        "id"@ != "input"@,
        "name"@ != "input"@,
        "type"@ != "tool_use_id"@,
        "type"@ != "content"@,
        "type"@ != "is_error"@,
        "tool_use_id"@ != "content"@,
        "tool_use_id"@ != "is_error"@,
        "content"@ != "is_error"@,
        "role"@ != "content"@,
        "name"@ != "description"@,
        "name"@ != "input_schema"@,
        "description"@ != "input_schema"@,
        "model"@ != "max_tokens"@,
        "model"@ != "system"@,
        "model"@ != "messages"@,
        "model"@ != "stream"@,
        "model"@ != "tools"@,
        "model"@ != "thinking"@,
        "max_tokens"@ != "system"@,
        "max_tokens"@ != "messages"@,
        "max_tokens"@ != "stream"@,
        "max_tokens"@ != "tools"@,
        "max_tokens"@ != "thinking"@,
        "system"@ != "messages"@,
        "system"@ != "stream"@,
        "system"@ != "tools"@,
        "system"@ != "thinking"@,
        "messages"@ != "stream"@,
        "messages"@ != "tools"@,
        "messages"@ != "thinking"@,
        "stream"@ != "tools"@,
        "stream"@ != "thinking"@,
        "tools"@ != "thinking"@,
        "type"@ != "budget_tokens"@,
{
    reveal_strlit("type");
    reveal_strlit("text");
    reveal_strlit("thinking");
    reveal_strlit("id");
    reveal_strlit("name");
    reveal_strlit("input");
    reveal_strlit("tool_use_id");
    reveal_strlit("content");
    reveal_strlit("is_error");
    reveal_strlit("role");
    reveal_strlit("description");
    reveal_strlit("input_schema");
    reveal_strlit("model");
    reveal_strlit("max_tokens");
    reveal_strlit("system");
    reveal_strlit("messages");
    reveal_strlit("stream");
    reveal_strlit("tools");
    reveal_strlit("budget_tokens");
    assert("type"@[1] != "text"@[1]);
    assert("type"@.len() != "thinking"@.len());
    assert("type"@.len() != "id"@.len());
    assert("type"@[0] != "name"@[0]);
    assert("type"@.len() != "input"@.len());
    assert("id"@.len() != "name"@.len());
    assert("id"@.len() != "input"@.len());
    assert("name"@.len() != "input"@.len());
    assert("type"@.len() != "tool_use_id"@.len());
    assert("type"@.len() != "content"@.len());
    assert("type"@.len() != "is_error"@.len());
    assert("tool_use_id"@.len() != "content"@.len());
    assert("tool_use_id"@.len() != "is_error"@.len());
    assert("content"@.len() != "is_error"@.len());
    assert("role"@.len() != "content"@.len());
    assert("name"@.len() != "description"@.len());
    assert("name"@.len() != "input_schema"@.len());
    assert("description"@.len() != "input_schema"@.len());
    assert("model"@.len() != "max_tokens"@.len());
    assert("model"@.len() != "system"@.len());
    assert("model"@.len() != "messages"@.len());
    assert("model"@.len() != "stream"@.len());
    assert("model"@[0] != "tools"@[0]);
    assert("model"@.len() != "thinking"@.len());
    assert("max_tokens"@.len() != "system"@.len());
    assert("max_tokens"@.len() != "messages"@.len());
    assert("max_tokens"@.len() != "stream"@.len());
    assert("max_tokens"@.len() != "tools"@.len());
    assert("max_tokens"@.len() != "thinking"@.len());
    assert("system"@.len() != "messages"@.len());
    assert("system"@[1] != "stream"@[1]);
    assert("system"@.len() != "tools"@.len());
    assert("system"@.len() != "thinking"@.len());
    assert("messages"@.len() != "stream"@.len());
    assert("messages"@.len() != "tools"@.len());
    assert("messages"@[0] != "thinking"@[0]);
    assert("stream"@.len() != "tools"@.len());
    assert("stream"@.len() != "thinking"@.len());
    assert("tools"@.len() != "thinking"@.len());
    assert("type"@.len() != "budget_tokens"@.len());
}


/// Whether a value is the content block of a part: its type says what it is, and every member
/// of the part stands in it. The arguments of a call stand as the JSON that they denote, null
/// where they denote none.
pub open spec fn carries_part(v: JVal, p: PartView) -> bool {
    match p {
        PartView::Text { text } => json::member(v, "type"@) == Some(JVal::Str("text"@))
            && json::member(v, "text"@) == Some(JVal::Str(text)),
        PartView::Thinking { thinking } => json::member(v, "type"@) == Some(
            JVal::Str("thinking"@),
        ) && json::member(v, "thinking"@) == Some(JVal::Str(thinking)),
        PartView::ToolCall { id, name, arguments } => {
            &&& json::member(v, "type"@) == Some(JVal::Str("tool_use"@))
            &&& json::member(v, "id"@) == Some(JVal::Str(id))
            &&& json::member(v, "name"@) == Some(JVal::Str(name))
            &&& json::member(v, "input"@) == Some(
                match json::parsed(arguments) {
                    Ok(a) => a,
                    Err(_) => JVal::Null,
                },
            )
        },
        PartView::ToolResult { tool_call_id, content, is_error } => {
            &&& json::member(v, "type"@) == Some(JVal::Str("tool_result"@))
            &&& json::member(v, "tool_use_id"@) == Some(JVal::Str(tool_call_id))
            &&& json::member(v, "content"@) == Some(JVal::Str(content))
            &&& json::member(v, "is_error"@) == Some(JVal::Bool(is_error))
        },
    }
}

/// A message is written under its own role with one content block for each part, in order.
pub proof fn messages_are_written_whole(m: ChatMessageView)
    ensures
        json::member(content_message(m), "role"@) == Some(JVal::Str(m.role)),
        json::member(content_message(m), "content"@) matches Some(JVal::Array(blocks))
            && blocks.len() == m.parts.len() && (forall|i: int|
            0 <= i < m.parts.len() ==> carries_part(#[trigger] blocks[i], m.parts[i])),
{
    lemma_body_keys();
}

/// The request body says all that was asked: the model, the limit, the system prompt, every
/// message in order, that the answer is streamed, every tool in order where there are any, and
/// thinking exactly where it is not off.
pub proof fn request_is_written_whole(req: ProviderRequestView)
    ensures
        json::member(anthropic_body(req), "model"@) == Some(JVal::Str(req.model.id)),
        json::member(anthropic_body(req), "max_tokens"@) == Some(JVal::UInt(req.max_tokens as u64)),
        json::member(anthropic_body(req), "system"@) == Some(JVal::Str(req.system)),
        json::member(anthropic_body(req), "stream"@) == Some(JVal::Bool(true)),
        json::member(anthropic_body(req), "messages"@) matches Some(JVal::Array(s)) && s.len()
            == req.messages.len() && (forall|i: int|
            0 <= i < s.len() ==> #[trigger] s[i] == content_message(req.messages[i])),
        req.tools.len() == 0 ==> json::member(anthropic_body(req), "tools"@) is None,
        req.tools.len() > 0 ==> (json::member(anthropic_body(req), "tools"@) matches Some(
            JVal::Array(s),
        ) && s.len() == req.tools.len() && (forall|i: int|
            0 <= i < s.len() ==> {
                &&& json::member(#[trigger] s[i], "name"@) == Some(JVal::Str(req.tools[i].name))
                &&& json::member(s[i], "description"@) == Some(
                    JVal::Str(req.tools[i].description),
                )
                &&& json::member(s[i], "input_schema"@) == Some(req.tools[i].input_schema)
            })),
        req.thinking == ThinkingLevel::Off ==> json::member(anthropic_body(req), "thinking"@)
            is None,
        req.thinking != ThinkingLevel::Off ==> (json::member(anthropic_body(req), "thinking"@)
            matches Some(t) && json::member(t, "type"@) == Some(JVal::Str("enabled"@))
            && json::member(t, "budget_tokens"@) == Some(JVal::UInt(2048))),
{
    lemma_body_keys();
}

/// Without a key nothing is sent. With one, the request goes to the provider's URL, carries
/// the key, the version and the type of its body, and its body is what was asked.
pub proof fn requests_are_addressed(p: AnthropicView, req: ProviderRequestView)
    ensures
        p.api_key.len() == 0 ==> anthropic_request(p, req) is Err,
        p.api_key.len() > 0 ==> (anthropic_request(p, req) matches Ok(h) && h.url == p.base_url
            && h.headers.contains(("x-api-key"@, p.api_key)) && h.headers.contains(
            ("anthropic-version"@, p.version),
        ) && h.headers.contains(("content-type"@, "application/json"@)) && h.headers.len() == 3
            && h.body == json::rendered(anthropic_body(req))),
{
    let h = anthropic_headers(p);
    assert(h[0] == ("x-api-key"@, p.api_key));
    assert(h[1] == ("anthropic-version"@, p.version));
    assert(h[2] == ("content-type"@, "application/json"@));
}

/// A stop reason that is not known, or is missing, means that the answer is complete; without
/// usage the output count stays.
pub proof fn other_stop_reasons_mean_stop(p: AnthropicParser, event: JVal, word: Seq<char>)
    requires
        json::member(event, "type"@) == Some(JVal::Str("message_delta"@)),
    ensures
        word != "max_tokens"@ && word != "tool_use"@ && json::opt_str_value(
            json::opt_member(json::member(event, "delta"@), "stop_reason"@),
        ) == Some(word) ==> event_fed(p, event).last_stop == StopReason::Stop,
        json::member(event, "delta"@) is None ==> event_fed(p, event).last_stop == StopReason::Stop,
        json::member(event, "usage"@) is None ==> event_fed(p, event).output_tokens
            == p.output_tokens,
        event_emitted(p, event).len() == 0,
{
    lemma_all_kinds();
    lemma_delta_kinds();
    lemma_stop_words();
    reveal_strlit("max_tokens");
    reveal_strlit("tool_use");
    assert("max_tokens"@.len() > 0 && "tool_use"@.len() > 0);
}

/// What an event leaves out is empty: a delta without its text adds none, a call without id or
/// name has empty ones, counts that are missing are nothing. Deltas of other kinds, and a message
/// without usage, change nothing.
pub proof fn missing_members_are_empty(
    p: AnthropicParser,
    event: JVal,
    inner: JVal,
    kind: Seq<char>,
)
    ensures
        json::member(event, "type"@) == Some(JVal::Str("content_block_delta"@)) && json::member(
            event,
            "delta"@,
        ) == Some(inner) && json::member(inner, "type"@) == Some(JVal::Str(kind)) ==> {
            let out = event_emitted(p, event);
            &&& kind == "text_delta"@ && json::member(inner, "text"@) is None ==> out == seq![
                StreamEventView::TextDelta { delta: Seq::empty() },
            ]
            &&& kind == "thinking_delta"@ && json::member(inner, "thinking"@) is None ==> out
                == seq![StreamEventView::ThinkingDelta { delta: Seq::empty() }]
            &&& kind != "text_delta"@ && kind != "thinking_delta"@ && kind != "input_json_delta"@
                ==> out.len() == 0
        },
        json::member(event, "type"@) == Some(JVal::Str("content_block_delta"@)) && json::member(
            event,
            "delta"@,
        ) is None ==> event_emitted(p, event).len() == 0,
        json::member(event, "type"@) == Some(JVal::Str("content_block_start"@)) && json::member(
            event,
            "content_block"@,
        ) is None ==> event_emitted(p, event).len() == 0,
        json::member(event, "type"@) == Some(JVal::Str("content_block_start"@)) && json::member(
            event,
            "content_block"@,
        ) == Some(inner) && json::member(inner, "type"@) == Some(JVal::Str("tool_use"@))
            && json::member(inner, "id"@) is None && json::member(inner, "name"@) is None
            ==> event_emitted(p, event) == seq![
            StreamEventView::ToolCallStarted { id: Seq::empty(), name: Seq::empty() },
        ],
        json::member(event, "type"@) == Some(JVal::Str("message_start"@)) && json::opt_member(
            json::member(event, "message"@),
            "usage"@,
        ) is None ==> event_fed(p, event) == p,
        json::member(event, "type"@) == Some(JVal::Str("message_start"@)) && json::opt_member(
            json::member(event, "message"@),
            "usage"@,
        ) == Some(JVal::Object(Map::empty())) ==> event_fed(p, event).input_tokens == 0 && event_fed(
            p,
            event,
        ).cache_read == 0 && event_fed(p, event).cache_write == 0,
        json::member(event, "type"@) is None ==> event_fed(p, event) == p && event_emitted(
            p,
            event,
        ).len() == 0,
{
    lemma_all_kinds();
    lemma_delta_kinds();
    lemma_stop_words();
    reveal_strlit("max_tokens");
    reveal_strlit("tool_use");
}

/// Without a key nothing is sent, and the error says where to put one.
pub proof fn keys_are_needed(p: AnthropicView, req: ProviderRequestView)
    requires
        p.api_key.len() == 0,
    ensures
        anthropic_request(p, req) == Err::<HttpRequestView, AiErrorView>(
            AiErrorView::Other(
                "未配置 API 密钥；请通过 --api-key、auth.json 或环境变量设置"@,
            ),
        ),
{
}

} // verus!
