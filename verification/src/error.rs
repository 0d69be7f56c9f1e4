//! Error types of the three layers, each with its message.

use crate::text;
use vstd::prelude::*;
use vstd::string::*;

verus! {

/// An error of a provider adapter.
#[derive(Debug)]
pub enum AiError {
    Http(String),
    Stream(String),
    Provider { status: u16, body: String },
    /// seconds to wait, where the provider says so
    RateLimited(Option<u64>),
    Json(String),
    Other(String),
}

/// What an `AiError` denotes.
pub enum AiErrorView {
    Http(Seq<char>),
    Stream(Seq<char>),
    Provider { status: u16, body: Seq<char> },
    RateLimited(Option<u64>),
    Json(Seq<char>),
    Other(Seq<char>),
}

impl View for AiError {
    type V = AiErrorView;

    open spec fn view(&self) -> AiErrorView {
        match self {
            AiError::Http(m) => AiErrorView::Http(m@),
            AiError::Stream(m) => AiErrorView::Stream(m@),
            AiError::Provider { status, body } => AiErrorView::Provider {
                status: *status,
                body: body@,
            },
            AiError::RateLimited(s) => AiErrorView::RateLimited(*s),
            AiError::Json(m) => AiErrorView::Json(m@),
            AiError::Other(m) => AiErrorView::Other(m@),
        }
    }
}

impl Clone for AiError {
    fn clone(&self) -> (r: Self)
        ensures
            r == *self,
    {
        match self {
            AiError::Http(m) => AiError::Http(m.clone()),
            AiError::Stream(m) => AiError::Stream(m.clone()),
            AiError::Provider { status, body } => AiError::Provider {
                status: *status,
                body: body.clone(),
            },
            AiError::RateLimited(s) => AiError::RateLimited(*s),
            AiError::Json(m) => AiError::Json(m.clone()),
            AiError::Other(m) => AiError::Other(m.clone()),
        }
    }
}

/// The message of an adapter error.
pub open spec fn ai_message(e: AiErrorView) -> Seq<char> {
    match e {
        AiErrorView::Http(m) => "http error: "@ + m,
        AiErrorView::Stream(m) => "stream error: "@ + m,
        AiErrorView::Provider { status, body } => "provider error "@ + text::decimal(status as nat)
            + ": "@ + body,
        AiErrorView::RateLimited(None) => "rate limited (429), retry-after Nones"@,
        AiErrorView::RateLimited(Some(s)) => "rate limited (429), retry-after Some("@
            + text::decimal(s as nat) + ")s"@,
        AiErrorView::Json(m) => "serialization error: "@ + m,
        AiErrorView::Other(m) => m,
    }
}

/// The delay that a `retry-after` header gives, where it is a number of seconds.
pub open spec fn delay(retry_after: Option<Seq<char>>) -> Option<u64> {
    match retry_after {
        Some(t) => text::parsed_u64(t),
        None => None,
    }
}

/// The error that a response stands for, by its status line and `retry-after` header.
pub open spec fn response_error(
    status: u16,
    retry_after: Option<Seq<char>>,
    reason: Seq<char>,
) -> AiErrorView {
    if status == 429 {
        AiErrorView::RateLimited(delay(retry_after))
    } else {
        AiErrorView::Provider { status, body: text::decimal(status as nat) + " "@ + reason }
    }
}

/// The error that a failed request ends in, by its status, `retry-after` header and body.
pub open spec fn status_error(
    status: u16,
    retry_after: Option<Seq<char>>,
    body: Seq<char>,
) -> Option<AiErrorView> {
    if status < 400 {
        None
    } else if status == 429 {
        Some(AiErrorView::RateLimited(delay(retry_after)))
    } else {
        Some(AiErrorView::Provider { status, body })
    }
}

/// The view of an optional error.
pub open spec fn opt_error(e: Option<AiError>) -> Option<AiErrorView> {
    match e {
        Some(e) => Some(e@),
        None => None,
    }
}

fn seconds(retry_after: Option<&str>) -> (r: Option<u64>)
    ensures
        r == delay(text::opt_slice(retry_after)),
{
    match retry_after {
        Some(t) => text::parse_u64(t),
        None => None,
    }
}

impl AiError {
    /// The message shown to the user.
    pub fn message(&self) -> (r: String)
        ensures
            r@ == ai_message(self@),
    {
        match self {
            AiError::Http(m) => text::cat("http error: ", m.as_str()),
            AiError::Stream(m) => text::cat("stream error: ", m.as_str()),
            AiError::Provider { status, body } => {
                let mut out = text::cat("provider error ", text::u64_text(*status as u64).as_str());
                out.append(": ");
                out.append(body.as_str());
                out
            },
            AiError::RateLimited(None) => "rate limited (429), retry-after Nones".to_owned(),
            AiError::RateLimited(Some(s)) => {
                let mut out = text::cat(
                    "rate limited (429), retry-after Some(",
                    text::u64_text(*s).as_str(),
                );
                out.append(")s");
                out
            },
            AiError::Json(m) => text::cat("serialization error: ", m.as_str()),
            AiError::Other(m) => m.clone(),
        }
    }

    /// The error that a response stands for: a rate limit with its delay, or the provider's
    /// status line.
    pub fn of_response(status: u16, retry_after: Option<&str>, reason: &str) -> (r: AiError)
        ensures
            r@ == response_error(status, text::opt_slice(retry_after), reason@),
    {
        if status == 429 {
            return AiError::RateLimited(seconds(retry_after));
        }
        let mut body = text::cat(text::u64_text(status as u64).as_str(), " ");
        body.append(reason);
        AiError::Provider { status, body }
    }

    /// The error that a request with this status and body ends in; none below 400. A rate
    /// limit carries the delay of its `retry-after` header.
    pub fn of_status(status: u16, retry_after: Option<&str>, body: String) -> (r: Option<AiError>)
        ensures
            opt_error(r) == status_error(status, text::opt_slice(retry_after), body@),
    {
        if status < 400 {
            None
        } else if status == 429 {
            Some(AiError::RateLimited(seconds(retry_after)))
        } else {
            Some(AiError::Provider { status, body })
        }
    }
}

/// An error of the agent loop.
#[derive(Debug)]
pub enum CoreError {
    Ai(AiError),
    Tool(String),
    InvalidToolCall { name: String, message: String },
    Cancelled,
    ContextOverflow { used: u64, window: u64, reserve: u64 },
}

/// What a `CoreError` denotes.
pub enum CoreErrorView {
    Ai(AiErrorView),
    Tool(Seq<char>),
    InvalidToolCall { name: Seq<char>, message: Seq<char> },
    Cancelled,
    ContextOverflow { used: u64, window: u64, reserve: u64 },
}

impl View for CoreError {
    type V = CoreErrorView;

    open spec fn view(&self) -> CoreErrorView {
        match self {
            CoreError::Ai(e) => CoreErrorView::Ai(e@),
            CoreError::Tool(m) => CoreErrorView::Tool(m@),
            CoreError::InvalidToolCall { name, message } => CoreErrorView::InvalidToolCall {
                name: name@,
                message: message@,
            },
            CoreError::Cancelled => CoreErrorView::Cancelled,
            CoreError::ContextOverflow { used, window, reserve } => CoreErrorView::ContextOverflow {
                used: *used,
                window: *window,
                reserve: *reserve,
            },
        }
    }
}

impl Clone for CoreError {
    fn clone(&self) -> (r: Self)
        ensures
            r == *self,
    {
        match self {
            CoreError::Ai(e) => CoreError::Ai(e.clone()),
            CoreError::Tool(m) => CoreError::Tool(m.clone()),
            CoreError::InvalidToolCall { name, message } => CoreError::InvalidToolCall {
                name: name.clone(),
                message: message.clone(),
            },
            CoreError::Cancelled => CoreError::Cancelled,
            CoreError::ContextOverflow { used, window, reserve } => CoreError::ContextOverflow {
                used: *used,
                window: *window,
                reserve: *reserve,
            },
        }
    }
}

/// The message of a loop error.
pub open spec fn core_message(e: CoreErrorView) -> Seq<char> {
    match e {
        CoreErrorView::Ai(a) => "AI 错误: "@ + ai_message(a),
        CoreErrorView::Tool(m) => "工具错误: "@ + m,
        CoreErrorView::InvalidToolCall { name, message } => "无效的工具调用 "@ + name + ": "@
            + message,
        CoreErrorView::Cancelled => "已取消"@,
        CoreErrorView::ContextOverflow { used, window, reserve } => "上下文溢出，需要压缩（已用 "@
            + text::decimal(used as nat) + " token，窗口 "@ + text::decimal(window as nat)
            + "，保留 "@ + text::decimal(reserve as nat) + "）"@,
    }
}

impl CoreError {
    /// The message shown to the user.
    pub fn message(&self) -> (r: String)
        ensures
            r@ == core_message(self@),
    {
        match self {
            CoreError::Ai(e) => text::cat("AI 错误: ", e.message().as_str()),
            CoreError::Tool(m) => text::cat("工具错误: ", m.as_str()),
            CoreError::InvalidToolCall { name, message } => {
                let mut out = text::cat("无效的工具调用 ", name.as_str());
                out.append(": ");
                out.append(message.as_str());
                out
            },
            CoreError::Cancelled => "已取消".to_owned(),
            CoreError::ContextOverflow { used, window, reserve } => {
                let mut out = text::cat("上下文溢出，需要压缩（已用 ", text::u64_text(*used).as_str());
                out.append(" token，窗口 ");
                out.append(text::u64_text(*window).as_str());
                out.append("，保留 ");
                out.append(text::u64_text(*reserve).as_str());
                out.append("）");
                out
            },
        }
    }
}

/// An error of a session. Errors of the file system and of the entry codec are carried by
/// their messages.
#[derive(Debug)]
pub enum SessionError {
    Io(String),
    Json(String),
    Core(CoreError),
    Corrupt { line: usize, message: String },
}

/// What a `SessionError` denotes.
pub enum SessionErrorView {
    Io(Seq<char>),
    Json(Seq<char>),
    Core(CoreErrorView),
    Corrupt { line: usize, message: Seq<char> },
}

impl View for SessionError {
    type V = SessionErrorView;

    open spec fn view(&self) -> SessionErrorView {
        match self {
            SessionError::Io(m) => SessionErrorView::Io(m@),
            SessionError::Json(m) => SessionErrorView::Json(m@),
            SessionError::Core(e) => SessionErrorView::Core(e@),
            SessionError::Corrupt { line, message } => SessionErrorView::Corrupt {
                line: *line,
                message: message@,
            },
        }
    }
}

/// The message of a session error.
pub open spec fn session_message(e: SessionErrorView) -> Seq<char> {
    match e {
        SessionErrorView::Io(m) => "IO 错误: "@ + m,
        SessionErrorView::Json(m) => "JSON 错误: "@ + m,
        SessionErrorView::Core(c) => "核心错误: "@ + core_message(c),
        SessionErrorView::Corrupt { line, message } => "会话文件损坏，第 "@ + text::decimal(
            line as nat,
        ) + " 行: "@ + message,
    }
}

impl SessionError {
    /// The message shown to the user.
    pub fn message(&self) -> (r: String)
        ensures
            r@ == session_message(self@),
    {
        match self {
            SessionError::Io(m) => text::cat("IO 错误: ", m.as_str()),
            SessionError::Json(m) => text::cat("JSON 错误: ", m.as_str()),
            SessionError::Core(e) => text::cat("核心错误: ", e.message().as_str()),
            SessionError::Corrupt { line, message } => {
                let mut out = text::cat("会话文件损坏，第 ", text::usize_text(*line).as_str());
                out.append(" 行: ");
                out.append(message.as_str());
                out
            },
        }
    }
}

// ---- laws ---------------------------------------------------------------------------------------

/// A request fails exactly from status 400 on: with a rate limit at 429, which carries the
/// delay that the header gives, and else with the status and the body as they came.
pub proof fn failures_are_told_by_status(
    status: u16,
    header: Option<Seq<char>>,
    body: Seq<char>,
    seconds: u64,
)
    ensures
        status_error(status, header, body) is None <==> status < 400,
        status == 429 ==> status_error(status, None, body) == Some(AiErrorView::RateLimited(None)),
        status == 429 ==> status_error(
            status,
            Some(text::decimal(seconds as nat)),
            body,
        ) == Some(AiErrorView::RateLimited(Some(seconds))),
        status >= 400 && status != 429 ==> status_error(status, header, body) == Some(
            AiErrorView::Provider { status, body },
        ),
        response_error(429, Some(text::decimal(seconds as nat)), body) == AiErrorView::RateLimited(
            Some(seconds),
        ),
        response_error(429, None, body) == AiErrorView::RateLimited(None),
        status != 429 ==> response_error(status, header, body) == (AiErrorView::Provider {
            status,
            body: text::decimal(status as nat) + " "@ + body,
        }),
{
    text::decimal_reads_back(seconds as nat);
}

/// Every message says which error it is and carries what the error holds.
pub proof fn messages_carry_their_errors(m: Seq<char>, n: Seq<char>, a: u64, b: u64, c: u64, s: u16)
    ensures
        ai_message(AiErrorView::Http(m)) == "http error: "@ + m,
        ai_message(AiErrorView::Stream(m)) == "stream error: "@ + m,
        ai_message(AiErrorView::Provider { status: s, body: m }) == "provider error "@
            + text::decimal(s as nat) + ": "@ + m,
        ai_message(AiErrorView::RateLimited(Some(a))) == "rate limited (429), retry-after Some("@
            + text::decimal(a as nat) + ")s"@,
        ai_message(AiErrorView::RateLimited(None)) == "rate limited (429), retry-after Nones"@,
        ai_message(AiErrorView::Json(m)) == "serialization error: "@ + m,
        ai_message(AiErrorView::Other(m)) == m,
        core_message(CoreErrorView::Ai(AiErrorView::Other(m))) == "AI 错误: "@ + m,
        core_message(CoreErrorView::Tool(m)) == "工具错误: "@ + m,
        core_message(CoreErrorView::InvalidToolCall { name: n, message: m }) == "无效的工具调用 "@
            + n + ": "@ + m,
        core_message(CoreErrorView::Cancelled) == "已取消"@,
        core_message(CoreErrorView::ContextOverflow { used: a, window: b, reserve: c })
            == "上下文溢出，需要压缩（已用 "@ + text::decimal(a as nat) + " token，窗口 "@
            + text::decimal(b as nat) + "，保留 "@ + text::decimal(c as nat) + "）"@,
        session_message(SessionErrorView::Io(m)) == "IO 错误: "@ + m,
        session_message(SessionErrorView::Json(m)) == "JSON 错误: "@ + m,
        session_message(SessionErrorView::Core(CoreErrorView::Tool(m))) == "核心错误: 工具错误: "@
            + m,
{
    reveal_strlit("核心错误: ");
    reveal_strlit("工具错误: ");
    reveal_strlit("核心错误: 工具错误: ");
    assert("核心错误: "@ + ("工具错误: "@ + m) =~= "核心错误: 工具错误: "@ + m);
}

/// A corrupt session names the line and what is wrong with it; an error of the core keeps the
/// message that the core gives it.
pub proof fn corrupt_lines_are_named(line: usize, m: Seq<char>, c: CoreErrorView)
    ensures
        session_message(SessionErrorView::Corrupt { line, message: m }) == "会话文件损坏，第 "@
            + text::decimal(line as nat) + " 行: "@ + m,
        session_message(SessionErrorView::Core(c)) == "核心错误: "@ + core_message(c),
{
}

} // verus!
