//! The interactive front end: a chat view and a settings view, as a state machine over keys
//! and stream messages.
//!
//! Input history on the arrow keys, scrolling on the page keys, command completion on tab,
//! a spinner while an answer streams, and token counts in the status bar.

use crate::creds::Credentials;
use crate::error;
use crate::error::{AiError, AiErrorView};
use crate::json;
use crate::json::{JVal, Json};
use crate::model;
use crate::model::{ModelView, ThinkingLevel, Usage};
use crate::provider;
use crate::provider::{ChatProvider, KindView, ProviderClient, ProviderKind, ProviderView, Wire};
use crate::request::{
    ChatMessage, ChatMessageView, HttpRequest, HttpRequestView, Part, PartView, ProviderRequest,
    ProviderRequestView,
};
use crate::setup;
use crate::stream;
use crate::stream::{StopReason, StreamEvent, StreamEventView};
use crate::text;
use vstd::prelude::*;
use vstd::string::*;

verus! {

// ---- fixed texts ------------------------------------------------------------------------------

/// The number of kinds to choose from.
pub const KIND_COUNT: usize = 4;

/// The number of slash commands.
pub const COMMAND_COUNT: usize = 6;

/// The number of fields of the settings form.
pub const FIELD_COUNT: usize = 4;

/// The number of spinner frames.
pub const SPINNER_COUNT: usize = 8;

/// The kinds to choose from, in order.
pub open spec fn kind_name(i: int) -> Seq<char> {
    if i == 0 {
        "anthropic messages"@
    } else if i == 1 {
        "openai chat"@
    } else if i == 2 {
        "openai responses"@
    } else {
        "deepseek chat"@
    }
}

/// The kinds to choose from, in order.
pub fn kind_option(i: usize) -> (r: &'static str)
    requires
        i < KIND_COUNT,
    ensures
        r@ == kind_name(i as int),
{
    if i == 0 {
        "anthropic messages"
    } else if i == 1 {
        "openai chat"
    } else if i == 2 {
        "openai responses"
    } else {
        "deepseek chat"
    }
}

/// The slash commands, in the order of the menu.
pub open spec fn command_name(i: int) -> Seq<char> {
    if i == 0 {
        "/设置"@
    } else if i == 1 {
        "/帮助"@
    } else if i == 2 {
        "/清空"@
    } else if i == 3 {
        "/统计"@
    } else if i == 4 {
        "/模型"@
    } else {
        "/退出"@
    }
}

/// The slash commands, in the order of the menu.
pub fn command(i: usize) -> (r: &'static str)
    requires
        i < COMMAND_COUNT,
    ensures
        r@ == command_name(i as int),
{
    if i == 0 {
        "/设置"
    } else if i == 1 {
        "/帮助"
    } else if i == 2 {
        "/清空"
    } else if i == 3 {
        "/统计"
    } else if i == 4 {
        "/模型"
    } else {
        "/退出"
    }
}

/// What a slash command does.
pub open spec fn command_purpose(i: int) -> Seq<char> {
    if i == 0 {
        "配置接口（类型/地址/密钥/模型）"@
    } else if i == 1 {
        "查看帮助"@
    } else if i == 2 {
        "清空会话记录"@
    } else if i == 3 {
        "显示统计信息"@
    } else if i == 4 {
        "显示当前模型"@
    } else {
        "退出"@
    }
}

/// What a slash command does.
pub fn command_hint(i: usize) -> (r: &'static str)
    requires
        i < COMMAND_COUNT,
    ensures
        r@ == command_purpose(i as int),
{
    if i == 0 {
        "配置接口（类型/地址/密钥/模型）"
    } else if i == 1 {
        "查看帮助"
    } else if i == 2 {
        "清空会话记录"
    } else if i == 3 {
        "显示统计信息"
    } else if i == 4 {
        "显示当前模型"
    } else {
        "退出"
    }
}

/// The label of a form field.
pub open spec fn field_label(i: int) -> Seq<char> {
    if i == 0 {
        "类型"@
    } else if i == 1 {
        "接口地址"@
    } else if i == 2 {
        "API 密钥"@
    } else {
        "模型 ID"@
    }
}

/// The hint of a form field.
pub open spec fn field_hint(i: int) -> Seq<char> {
    if i == 0 {
        "← → 切换类型"@
    } else if i == 1 {
        "填到前缀即可，例如 https://api.openai.com/v1；留空用默认"@
    } else if i == 2 {
        "留空则尝试环境变量"@
    } else {
        "例如 gpt-4o-mini, deepseek-chat"@
    }
}

/// A frame of the spinner.
pub open spec fn spinner_frame_text(i: int) -> Seq<char> {
    if i == 0 {
        "⠋"@
    } else if i == 1 {
        "⠙"@
    } else if i == 2 {
        "⠹"@
    } else if i == 3 {
        "⠸"@
    } else if i == 4 {
        "⠼"@
    } else if i == 5 {
        "⠴"@
    } else if i == 6 {
        "⠦"@
    } else {
        "⠧"@
    }
}

/// The spinner's text at a frame; the frames repeat.
pub fn spinner_char(frame: usize) -> (r: &'static str)
    ensures
        r@ == spinner_frame_text(frame as int % 8),
{
    let i: usize = frame % SPINNER_COUNT;
    if i == 0 {
        "⠋"
    } else if i == 1 {
        "⠙"
    } else if i == 2 {
        "⠹"
    } else if i == 3 {
        "⠸"
    } else if i == 4 {
        "⠼"
    } else if i == 5 {
        "⠴"
    } else if i == 6 {
        "⠦"
    } else {
        "⠧"
    }
}

/// The place of a kind among the options; the first where it is none of them.
pub open spec fn kind_place(current: Seq<char>) -> int {
    if current == kind_name(0) {
        0
    } else if current == kind_name(1) {
        1
    } else if current == kind_name(2) {
        2
    } else if current == kind_name(3) {
        3
    } else {
        0
    }
}

/// The place of a kind among the options.
pub fn kind_index(current: &str) -> (r: usize)
    ensures
        r == kind_place(current@),
        r < KIND_COUNT,
{
    if text::str_eq(current, kind_option(0)) {
        0
    } else if text::str_eq(current, kind_option(1)) {
        1
    } else if text::str_eq(current, kind_option(2)) {
        2
    } else if text::str_eq(current, kind_option(3)) {
        3
    } else {
        0
    }
}

/// The kind that follows or precedes another, in a circle.
pub open spec fn cycled(current: Seq<char>, right: bool) -> Seq<char> {
    kind_name(
        if right {
            (kind_place(current) + 1) % 4
        } else {
            (kind_place(current) + 3) % 4
        },
    )
}

/// The kind that follows or precedes another, in a circle.
pub fn cycle_kind(current: &str, right: bool) -> (r: &'static str)
    ensures
        r@ == cycled(current@, right),
{
    let cur = kind_index(current);
    let next: usize = if right {
        (cur + 1) % KIND_COUNT
    } else {
        (cur + KIND_COUNT - 1) % KIND_COUNT
    };
    kind_option(next)
}

/// The help that the help command shows.
pub open spec fn help_text() -> Seq<char> {
    "快捷键：\n  ↑/↓    翻阅输入历史\n  Tab    命令补全\n  PgUp/Dn 滚动聊天记录\n  Esc    取消生成\n  Ctrl+C  退出\n  Ctrl+L  清屏\n\n命令：\n  /设置    配置\n  /清空    清空记录\n  /统计    统计信息\n  /模型    当前模型\n  /帮助    帮助\n  /退出    退出"@
}

// ---- state --------------------------------------------------------------------------------------

/// A line of the transcript.
#[derive(Debug)]
pub struct ChatItem {
    pub role: String,
    pub text: String,
    /// when it was sent or received, as `HH:MM:SS`
    pub time: String,
}

/// What a `ChatItem` denotes.
pub struct ItemView {
    pub role: Seq<char>,
    pub text: Seq<char>,
    pub time: Seq<char>,
}

impl View for ChatItem {
    type V = ItemView;

    open spec fn view(&self) -> ItemView {
        ItemView { role: self.role@, text: self.text@, time: self.time@ }
    }
}

impl ChatItem {
    /// An item made at the time `now`.
    pub fn new(role: &str, text: &str, now: &str) -> (r: Self)
        ensures
            r@ == (ItemView { role: role@, text: text@, time: now@ }),
    {
        ChatItem { role: role.to_owned(), text: text.to_owned(), time: now.to_owned() }
    }
}

/// A field of the settings form.
#[derive(Debug)]
pub struct FormField {
    pub label: &'static str,
    pub value: String,
    pub hint: String,
}

/// What a `FormField` denotes.
pub struct FieldView {
    pub label: Seq<char>,
    pub value: Seq<char>,
    pub hint: Seq<char>,
}

impl View for FormField {
    type V = FieldView;

    open spec fn view(&self) -> FieldView {
        FieldView { label: self.label@, value: self.value@, hint: self.hint@ }
    }
}

/// Which view is shown.
#[derive(Debug, Clone, Copy, PartialEq, Eq, Structural)]
pub enum Mode {
    Chat,
    Settings,
}

/// What the task that streams an answer reports.
#[derive(Debug)]
pub enum StreamMsg {
    Delta(String),
    Done(String),
    Failed(String),
}

/// What a `StreamMsg` denotes.
pub enum StreamMsgView {
    Delta(Seq<char>),
    Done(Seq<char>),
    Failed(Seq<char>),
}

impl View for StreamMsg {
    type V = StreamMsgView;

    open spec fn view(&self) -> StreamMsgView {
        match self {
            StreamMsg::Delta(t) => StreamMsgView::Delta(t@),
            StreamMsg::Done(t) => StreamMsgView::Done(t@),
            StreamMsg::Failed(t) => StreamMsgView::Failed(t@),
        }
    }
}

/// The state of the front end.
pub struct ChatApp {
    pub mode: Mode,
    pub history: Vec<ChatItem>,
    pub input: String,
    /// inputs to recall
    pub input_history: Vec<String>,
    pub input_history_idx: Option<usize>,
    pub busy: bool,
    /// whether a stream of messages is attached
    pub connected: bool,
    pub status: String,
    pub form: Vec<FormField>,
    pub form_active: usize,
    pub streaming_item: Option<usize>,
    pub usage_str: String,
    /// the selected command, where the command menu is open
    pub cmd_menu: Option<usize>,
    /// lines scrolled up from the bottom
    pub scroll_offset: u16,
    pub spinner_frame: usize,
    pub total_input_tokens: u64,
    pub total_output_tokens: u64,
}

/// What a `ChatApp` denotes.
pub struct AppView {
    pub mode: Mode,
    pub history: Seq<ItemView>,
    pub input: Seq<char>,
    pub input_history: Seq<Seq<char>>,
    pub input_history_idx: Option<usize>,
    pub busy: bool,
    pub connected: bool,
    pub status: Seq<char>,
    pub form: Seq<FieldView>,
    pub form_active: usize,
    pub streaming_item: Option<usize>,
    pub usage_str: Seq<char>,
    pub cmd_menu: Option<usize>,
    pub scroll_offset: u16,
    pub spinner_frame: usize,
    pub total_input_tokens: u64,
    pub total_output_tokens: u64,
}

/// The views of a transcript.
pub open spec fn item_views(s: Seq<ChatItem>) -> Seq<ItemView> {
    s.map_values(|i: ChatItem| i@)
}

/// The views of a form.
pub open spec fn field_views(s: Seq<FormField>) -> Seq<FieldView> {
    s.map_values(|f: FormField| f@)
}

impl View for ChatApp {
    type V = AppView;

    open spec fn view(&self) -> AppView {
        AppView {
            mode: self.mode,
            history: item_views(self.history@),
            input: self.input@,
            input_history: text::strs(self.input_history@),
            input_history_idx: self.input_history_idx,
            busy: self.busy,
            connected: self.connected,
            status: self.status@,
            form: field_views(self.form@),
            form_active: self.form_active,
            streaming_item: self.streaming_item,
            usage_str: self.usage_str@,
            cmd_menu: self.cmd_menu,
            scroll_offset: self.scroll_offset,
            spinner_frame: self.spinner_frame,
            total_input_tokens: self.total_input_tokens,
            total_output_tokens: self.total_output_tokens,
        }
    }
}

/// The shape that every state has: a form of four fields of which one is active, and marks
/// that point into the lists they belong to.
pub open spec fn app_ok(a: AppView) -> bool {
    &&& a.form.len() == 4
    &&& a.form_active < 4
    &&& a.input_history_idx matches Some(i) ==> i < a.input_history.len()
    &&& a.cmd_menu matches Some(i) ==> i < 6
}

/// Whether the item that is being streamed is in the transcript. Clearing the transcript
/// while an answer streams breaks this.
pub open spec fn stream_ok(a: AppView) -> bool {
    a.streaming_item matches Some(i) ==> i < a.history.len()
}

/// The state with one more item in the transcript.
pub open spec fn noted(a: AppView, role: Seq<char>, text: Seq<char>, now: Seq<char>) -> AppView {
    AppView { history: a.history.push(ItemView { role, text, time: now }), ..a }
}

/// The empty form.
pub open spec fn empty_form() -> Seq<FieldView> {
    Seq::new(
        4,
        |i: int| FieldView { label: field_label(i), value: Seq::empty(), hint: field_hint(i) },
    )
}

/// The first state.
pub open spec fn first_state(now: Seq<char>) -> AppView {
    AppView {
        mode: Mode::Chat,
        history: seq![
            ItemView {
                role: "system"@,
                text: "AgentRust · 输入 / 打开命令菜单，其他内容发送给模型"@,
                time: now,
            },
        ],
        input: Seq::empty(),
        input_history: Seq::empty(),
        input_history_idx: None,
        busy: false,
        connected: false,
        status: Seq::empty(),
        form: empty_form(),
        form_active: 0,
        streaming_item: None,
        usage_str: Seq::empty(),
        cmd_menu: None,
        scroll_offset: 0,
        spinner_frame: 0,
        total_input_tokens: 0,
        total_output_tokens: 0,
    }
}

/// The form with another value in a field.
pub open spec fn with_value(form: Seq<FieldView>, i: int, value: Seq<char>) -> Seq<FieldView> {
    form.update(i, FieldView { value, ..form[i] })
}

/// The first word of a text; `openai` where there is none.
pub open spec fn vendor_word(t: Seq<char>) -> Seq<char> {
    let w = text::words(t);
    if w.len() > 0 {
        w[0]
    } else {
        "openai"@
    }
}

/// The form as the settings fill it.
pub open spec fn loaded_form(form: Seq<FieldView>, auth: JVal) -> Seq<FieldView> {
    let kind = setup::configured_provider(auth);
    let section = json::member(auth, vendor_word(kind));
    let f1 = with_value(form, 0, kind);
    let f2 = with_value(f1, 1, json::str_or_empty(json::opt_member(section, "base_url"@)));
    let f3 = with_value(f2, 2, json::str_or_empty(json::opt_member(section, "api_key"@)));
    with_value(f3, 3, json::str_or_empty(json::member(auth, "default_model"@)))
}

/// A section of the settings with an entry, where it is not empty.
pub open spec fn with_entry(
    m: Map<Seq<char>, JVal>,
    key: Seq<char>,
    value: Seq<char>,
) -> Map<Seq<char>, JVal> {
    if value.len() > 0 {
        m.insert(key, JVal::Str(value))
    } else {
        m
    }
}

/// The settings that a form stands for, as a patch; or why it stands for none.
pub open spec fn patch_of(form: Seq<FieldView>) -> Result<JVal, Seq<char>> {
    match provider::parsed_kind(form[0].value) {
        Some(k) => {
            let section = with_entry(
                with_entry(Map::empty(), "base_url"@, form[1].value),
                "api_key"@,
                form[2].value,
            );
            let m = Map::empty().insert("provider"@, JVal::Str(provider::shown_kind(k))).insert(
                k.vendor,
                JVal::Object(section),
            );
            Ok(JVal::Object(with_entry(m, "default_model"@, form[3].value)))
        },
        None => Err("未知类型: '"@ + form[0].value + "'"@),
    }
}

// ---- input ----------------------------------------------------------------------------------------

/// The state after the input was put into the history: inputs that are blank are not.
pub open spec fn remembered(a: AppView) -> AppView {
    AppView {
        input_history: if text::trimmed(a.input).len() > 0 {
            a.input_history.push(a.input)
        } else {
            a.input_history
        },
        input_history_idx: None,
        ..a
    }
}

/// The state after a step back in the input history.
pub open spec fn recalled_prev(a: AppView) -> AppView {
    if a.input_history.len() == 0 {
        a
    } else {
        let i = match a.input_history_idx {
            Some(i) => if i > 0 {
                (i - 1) as usize
            } else {
                i
            },
            None => (a.input_history.len() - 1) as usize,
        };
        AppView { input_history_idx: Some(i), input: a.input_history[i as int], ..a }
    }
}

/// The state after a step forward in the input history; behind the last, the input is empty.
pub open spec fn recalled_next(a: AppView) -> AppView {
    match a.input_history_idx {
        Some(i) => if i + 1 < a.input_history.len() {
            AppView {
                input_history_idx: Some((i + 1) as usize),
                input: a.input_history[i + 1],
                ..a
            }
        } else {
            AppView { input_history_idx: None, input: Seq::empty(), ..a }
        },
        None => a,
    }
}

/// The first `n` commands that begin with a text, in order.
pub open spec fn matching(t: Seq<char>, n: nat) -> Seq<Seq<char>>
    decreases n,
{
    if n == 0 {
        Seq::empty()
    } else {
        let rest = matching(t, (n - 1) as nat);
        if text::has_prefix(command_name(n - 1), t) {
            rest.push(command_name(n - 1))
        } else {
            rest
        }
    }
}

/// The state after completion: one command that begins with the input is filled in, several
/// are listed.
pub open spec fn completed(a: AppView, now: Seq<char>) -> AppView {
    let t = text::trimmed_start(a.input);
    if t.len() == 0 || t[0] != '/' {
        a
    } else {
        let m = matching(t, 6);
        if m.len() == 1 {
            AppView { input: m[0] + " "@, ..a }
        } else if m.len() > 1 {
            noted(a, "system"@, "可补全: "@ + text::joined(m, ", "@), now)
        } else {
            a
        }
    }
}

/// The state after a text was sent, or refused while an answer streams.
pub open spec fn sent(a: AppView, t: Seq<char>, now: Seq<char>) -> AppView {
    if a.busy {
        AppView { status: "正在生成中，请稍候…"@, ..a }
    } else {
        let b = noted(remembered(a), "user"@, t, now);
        AppView {
            input: Seq::empty(),
            connected: true,
            busy: true,
            status: "生成中…"@,
            scroll_offset: 0,
            streaming_item: Some(b.history.len() as usize),
            ..noted(b, "assistant"@, Seq::empty(), now)
        }
    }
}

// ---- stream messages ------------------------------------------------------------------------------

/// The token counts after the words `输入=n` and `输出=n` of a usage message were added, each
/// wrapping around at 2^64.
pub open spec fn counted(t: (u64, u64), words: Seq<Seq<char>>) -> (u64, u64)
    decreases words.len(),
{
    if words.len() == 0 {
        t
    } else {
        let r = counted(t, words.drop_last());
        let w = words.last();
        (added(r.0, w, "输入="@), added(r.1, w, "输出="@))
    }
}

/// A count after a word `key` + number was added; other words add nothing.
pub open spec fn added(n: u64, word: Seq<char>, key: Seq<char>) -> u64 {
    match text::after_prefix(word, key) {
        Some(v) => match text::parsed_u64(v) {
            Some(k) => model::wrapped_sum(n, k),
            None => n,
        },
        None => n,
    }
}

/// The state after a message of the stream. A usage message is kept for the status and adds
/// to the token counts; another end message ends the answer.
pub open spec fn on_msg(a: AppView, m: StreamMsgView, now: Seq<char>) -> AppView {
    match m {
        StreamMsgView::Delta(d) => match a.streaming_item {
            Some(i) => AppView {
                history: a.history.update(
                    i as int,
                    ItemView { text: a.history[i as int].text + d, ..a.history[i as int] },
                ),
                ..a
            },
            None => a,
        },
        StreamMsgView::Done(s) => match text::after_prefix(s, "用量："@) {
            Some(rest) => {
                let t = counted(
                    (a.total_input_tokens, a.total_output_tokens),
                    text::words(rest),
                );
                AppView { usage_str: s, total_input_tokens: t.0, total_output_tokens: t.1, ..a }
            },
            None => AppView {
                busy: false,
                history: match a.streaming_item {
                    Some(i) => a.history.update(
                        i as int,
                        ItemView { time: now, ..a.history[i as int] },
                    ),
                    None => a.history,
                },
                streaming_item: None,
                status: if a.usage_str.len() == 0 {
                    s
                } else {
                    a.usage_str
                },
                usage_str: Seq::empty(),
                ..a
            },
        },
        StreamMsgView::Failed(e) => AppView {
            status: "错误："@ + e,
            busy: false,
            connected: false,
            streaming_item: None,
            ..noted(a, "system"@, "错误："@ + e, now)
        },
    }
}

/// The state after a list of messages.
pub open spec fn on_msgs(a: AppView, s: Seq<StreamMsgView>, now: Seq<char>) -> AppView
    decreases s.len(),
{
    if s.len() == 0 {
        a
    } else {
        on_msg(on_msgs(a, s.drop_last(), now), s.last(), now)
    }
}

/// Whether one of the messages is a failure.
pub open spec fn any_failed(s: Seq<StreamMsgView>) -> bool {
    exists|i: int| 0 <= i < s.len() && #[trigger] s[i] is Failed
}

/// The state after the work before a frame, and whether the frame is drawn: not after a
/// failure. `due` says whether the spinner's time is up.
pub open spec fn frame_begun(
    a: AppView,
    s: Seq<StreamMsgView>,
    now: Seq<char>,
    due: bool,
) -> (AppView, bool) {
    let b = on_msgs(a, s, now);
    if any_failed(s) {
        (AppView { connected: false, ..b }, false)
    } else {
        let c = if b.connected && !b.busy && b.streaming_item is None {
            AppView { connected: false, ..b }
        } else {
            b
        };
        (
            if c.busy && due {
                AppView {
                    spinner_frame: if c.spinner_frame == usize::MAX {
                        0
                    } else {
                        (c.spinner_frame + 1) as usize
                    },
                    ..c
                }
            } else {
                c
            },
            true,
        )
    }
}

// ---- commands and keys ----------------------------------------------------------------------------

/// The number of items of a role.
pub open spec fn role_count(s: Seq<ItemView>, role: Seq<char>) -> nat
    decreases s.len(),
{
    if s.len() == 0 {
        0
    } else {
        role_count(s.drop_last(), role) + (if s.last().role == role {
            1nat
        } else {
            0nat
        })
    }
}

/// What the statistics command shows.
pub open spec fn stats_text(a: AppView) -> Seq<char> {
    "消息数: "@ + text::decimal(a.history.len()) + " (用户: "@ + text::decimal(
        role_count(a.history, "user"@),
    ) + ", 助手: "@ + text::decimal(role_count(a.history, "assistant"@)) + ")\nToken: 输入 "@
        + text::decimal(a.total_input_tokens as nat) + " / 输出 "@ + text::decimal(
        a.total_output_tokens as nat,
    )
}

/// The model as it is shown.
pub open spec fn shown_model(a: AppView) -> Seq<char> {
    if a.form[3].value.len() == 0 {
        "（未设置）"@
    } else {
        a.form[3].value
    }
}

/// What the model command shows.
pub open spec fn model_text(a: AppView) -> Seq<char> {
    "服务商: "@ + a.form[0].value + "\n模型: "@ + shown_model(a)
}

/// The state after a command other than quit; words that are no commands change nothing.
pub open spec fn commanded(a: AppView, cmd: Seq<char>, now: Seq<char>, auth: JVal) -> AppView {
    if cmd == command_name(0) {
        AppView {
            form: loaded_form(a.form, auth),
            mode: Mode::Settings,
            status: Seq::empty(),
            ..a
        }
    } else if cmd == command_name(1) {
        noted(a, "system"@, help_text(), now)
    } else if cmd == command_name(2) {
        AppView {
            total_input_tokens: 0,
            total_output_tokens: 0,
            ..cleared(a, "AgentRust · 记录已清空"@, now)
        }
    } else if cmd == command_name(3) {
        noted(a, "system"@, stats_text(a), now)
    } else if cmd == command_name(4) {
        noted(a, "system"@, model_text(a), now)
    } else {
        a
    }
}

/// The state with a transcript of one note.
pub open spec fn cleared(a: AppView, note: Seq<char>, now: Seq<char>) -> AppView {
    noted(AppView { history: Seq::empty(), ..a }, "system"@, note, now)
}

/// The state after a command was picked from the menu.
pub open spec fn picked(a: AppView, cmd: Seq<char>, now: Seq<char>, auth: JVal) -> AppView {
    commanded(AppView { cmd_menu: None, input: Seq::empty(), ..a }, cmd, now, auth)
}

/// A key press.
#[derive(Debug, Clone, Copy, PartialEq, Eq, Structural)]
pub enum Key {
    Esc,
    Up,
    Down,
    Left,
    Right,
    Tab,
    Enter,
    Backspace,
    PageUp,
    PageDown,
    Char(char),
    Other,
}

/// What a key press asks of the caller.
#[derive(Debug)]
pub enum KeyOutcome {
    Continue,
    Quit,
    /// Merge this into the settings file, then report with `saved`.
    Save(Json),
    /// Send this text to the model.
    Send(String),
}

/// What a `KeyOutcome` denotes.
pub enum OutcomeView {
    Continue,
    Quit,
    Save(JVal),
    Send(Seq<char>),
}

impl View for KeyOutcome {
    type V = OutcomeView;

    open spec fn view(&self) -> OutcomeView {
        match self {
            KeyOutcome::Continue => OutcomeView::Continue,
            KeyOutcome::Quit => OutcomeView::Quit,
            KeyOutcome::Save(j) => OutcomeView::Save(j@),
            KeyOutcome::Send(t) => OutcomeView::Send(t@),
        }
    }
}

/// What a key does in the settings view.
pub open spec fn on_settings_key(a: AppView, key: Key) -> (AppView, OutcomeView) {
    let i = a.form_active as int;
    match key {
        Key::Esc => (
            AppView { mode: Mode::Chat, status: "已放弃修改"@, ..a },
            OutcomeView::Continue,
        ),
        Key::Up => (
            AppView {
                form_active: if i > 0 {
                    (i - 1) as usize
                } else {
                    0
                },
                ..a
            },
            OutcomeView::Continue,
        ),
        Key::Down => (
            AppView {
                form_active: if i < 3 {
                    (i + 1) as usize
                } else {
                    3
                },
                ..a
            },
            OutcomeView::Continue,
        ),
        Key::Tab => (
            AppView {
                form_active: if i < 3 {
                    (i + 1) as usize
                } else {
                    0
                },
                ..a
            },
            OutcomeView::Continue,
        ),
        Key::Left => (turned(a, false), OutcomeView::Continue),
        Key::Right => (turned(a, true), OutcomeView::Continue),
        Key::Enter => match patch_of(a.form) {
            Ok(patch) => (a, OutcomeView::Save(patch)),
            Err(m) => (AppView { status: m, ..a }, OutcomeView::Continue),
        },
        Key::Backspace => (
            if i != 0 && a.form[i].value.len() > 0 {
                AppView { form: with_value(a.form, i, a.form[i].value.drop_last()), ..a }
            } else {
                a
            },
            OutcomeView::Continue,
        ),
        Key::Char(c) => (
            if i != 0 {
                AppView { form: with_value(a.form, i, a.form[i].value.push(c)), ..a }
            } else {
                a
            },
            OutcomeView::Continue,
        ),
        _ => (a, OutcomeView::Continue),
    }
}

/// The state after the kind was turned over, where its field is active.
pub open spec fn turned(a: AppView, right: bool) -> AppView {
    if a.form_active == 0 {
        AppView { form: with_value(a.form, 0, cycled(a.form[0].value, right)), ..a }
    } else {
        a
    }
}

/// What came of writing the settings file: written, no place to write it, or an error.
#[derive(Debug)]
pub enum SaveResult {
    Written,
    NoHome,
    Error(String),
}

/// The state after the settings were written, or not.
pub open spec fn after_save(a: AppView, r: SaveResult) -> AppView {
    match r {
        SaveResult::Written => AppView { mode: Mode::Chat, status: "设置已保存"@, ..a },
        SaveResult::NoHome => AppView {
            status: "没有 HOME/USERPROFILE 目录，无法写入 auth.json"@,
            ..a
        },
        SaveResult::Error(m) => AppView { status: "写入失败："@ + m@, ..a },
    }
}

/// What a key does while the command menu is open on a single slash.
pub open spec fn on_menu_key(
    a: AppView,
    sel: usize,
    key: Key,
    now: Seq<char>,
    auth: JVal,
) -> (AppView, OutcomeView) {
    match key {
        Key::Up => (
            AppView { cmd_menu: Some(((sel + 5) % 6) as usize), ..a },
            OutcomeView::Continue,
        ),
        Key::Down => (
            AppView { cmd_menu: Some(((sel + 1) % 6) as usize), ..a },
            OutcomeView::Continue,
        ),
        Key::Enter => pick(a, sel, now, auth),
        Key::Tab => pick(a, sel, now, auth),
        Key::Esc => (
            AppView { cmd_menu: None, input: Seq::empty(), ..a },
            OutcomeView::Continue,
        ),
        Key::Backspace => (
            AppView { cmd_menu: None, input: Seq::empty(), ..a },
            OutcomeView::Continue,
        ),
        Key::Char(c) => (
            if c == '/' {
                AppView { input: a.input.push('/'), ..a }
            } else {
                a
            },
            OutcomeView::Continue,
        ),
        _ => (a, OutcomeView::Continue),
    }
}

/// What picking a command from the menu does.
pub open spec fn pick(a: AppView, sel: usize, now: Seq<char>, auth: JVal) -> (AppView, OutcomeView) {
    (
        picked(a, command_name(sel as int), now, auth),
        if sel == 5 {
            OutcomeView::Quit
        } else {
            OutcomeView::Continue
        },
    )
}

/// What the enter key does with the input.
pub open spec fn on_enter(a: AppView, now: Seq<char>, auth: JVal) -> (AppView, OutcomeView) {
    let t = text::trimmed(a.input);
    if t.len() == 0 {
        (a, OutcomeView::Continue)
    } else if t == command_name(5) || t == "/quit"@ {
        (a, OutcomeView::Quit)
    } else if is_shown_command(t) {
        (
            AppView { input: Seq::empty(), ..commanded(a, t, now, auth) },
            OutcomeView::Continue,
        )
    } else {
        (
            sent(a, t, now),
            if a.busy {
                OutcomeView::Continue
            } else {
                OutcomeView::Send(t)
            },
        )
    }
}

/// Whether a text is a command other than quit.
pub open spec fn is_shown_command(t: Seq<char>) -> bool {
    ||| t == command_name(0)
    ||| t == command_name(1)
    ||| t == command_name(2)
    ||| t == command_name(3)
    ||| t == command_name(4)
}

/// The state after a character was typed: a slash opens the menu on an empty input and is
/// refused where the input begins with one.
pub open spec fn typed(a: AppView, c: char) -> AppView {
    if c == '/' && a.input.len() == 0 {
        AppView { input: a.input.push(c), cmd_menu: Some(0), ..a }
    } else if c == '/' && a.input[0] == '/' {
        a
    } else {
        AppView { input: a.input.push(c), ..a }
    }
}

/// The state after the last character of the input was taken back; an empty input closes the
/// menu.
pub open spec fn erased(a: AppView) -> AppView {
    let t = if a.input.len() > 0 {
        a.input.drop_last()
    } else {
        a.input
    };
    AppView {
        input: t,
        cmd_menu: if t.len() == 0 {
            None
        } else {
            a.cmd_menu
        },
        ..a
    }
}

/// What a key does in the chat view. `ctrl` says whether the control key is held.
pub open spec fn on_chat_key(
    a: AppView,
    key: Key,
    ctrl: bool,
    now: Seq<char>,
    auth: JVal,
) -> (AppView, OutcomeView) {
    if ctrl && key == Key::Char('c') {
        (a, OutcomeView::Quit)
    } else if ctrl && key == Key::Char('l') {
        (cleared(a, "AgentRust · 屏幕已清空"@, now), OutcomeView::Continue)
    } else if key == Key::Esc && a.cmd_menu is Some {
        (AppView { cmd_menu: None, input: Seq::empty(), ..a }, OutcomeView::Continue)
    } else if key == Key::Esc && a.busy {
        (
            AppView {
                busy: false,
                streaming_item: None,
                connected: false,
                status: "已取消"@,
                ..a
            },
            OutcomeView::Continue,
        )
    } else if key == Key::PageUp {
        (
            AppView {
                scroll_offset: if a.scroll_offset > 65530 {
                    65535
                } else {
                    (a.scroll_offset + 5) as u16
                },
                ..a
            },
            OutcomeView::Continue,
        )
    } else if key == Key::PageDown {
        (
            AppView {
                scroll_offset: if a.scroll_offset < 5 {
                    0
                } else {
                    (a.scroll_offset - 5) as u16
                },
                ..a
            },
            OutcomeView::Continue,
        )
    } else if a.cmd_menu is Some && a.input == "/"@ {
        on_menu_key(a, a.cmd_menu->Some_0, key, now, auth)
    } else {
        match key {
            Key::Enter => on_enter(a, now, auth),
            Key::Up => (recalled_prev(a), OutcomeView::Continue),
            Key::Down => (recalled_next(a), OutcomeView::Continue),
            Key::Tab => (completed(a, now), OutcomeView::Continue),
            Key::Backspace => (erased(a), OutcomeView::Continue),
            Key::Char(c) => (typed(a, c), OutcomeView::Continue),
            _ => (a, OutcomeView::Continue),
        }
    }
}

/// What a key does.
pub open spec fn on_key(
    a: AppView,
    key: Key,
    ctrl: bool,
    now: Seq<char>,
    auth: JVal,
) -> (AppView, OutcomeView) {
    match a.mode {
        Mode::Settings => on_settings_key(a, key),
        Mode::Chat => on_chat_key(a, key, ctrl, now, auth),
    }
}

// ---- the front end --------------------------------------------------------------------------------

fn form_field(i: usize) -> (r: FormField)
    requires
        i < FIELD_COUNT,
    ensures
        r@ == empty_form()[i as int],
{
    let label = if i == 0 {
        "类型"
    } else if i == 1 {
        "接口地址"
    } else if i == 2 {
        "API 密钥"
    } else {
        "模型 ID"
    };
    let hint = if i == 0 {
        "← → 切换类型"
    } else if i == 1 {
        "填到前缀即可，例如 https://api.openai.com/v1；留空用默认"
    } else if i == 2 {
        "留空则尝试环境变量"
    } else {
        "例如 gpt-4o-mini, deepseek-chat"
    };
    FormField { label, value: String::new(), hint: hint.to_owned() }
}

fn first_word(t: &str) -> (r: String)
    ensures
        r@ == vendor_word(t@),
{
    let w = text::split_words(t);
    assert(w@.map_values(|w: String| w@) == text::words(t@));
    if w.len() > 0 {
        assert(w@.map_values(|w: String| w@)[0] == w@[0]@);
        w[0].clone()
    } else {
        "openai".to_owned()
    }
}

fn section_text(auth: &Json, section: &str, key: &str) -> (r: String)
    ensures
        r@ == json::str_or_empty(json::opt_member(json::member(auth@, section@), key@)),
{
    match auth.get(section) {
        Some(s) => s.text_member(key),
        None => String::new(),
    }
}

impl ChatApp {
    /// The first state; `now` is the time.
    pub fn new(now: &str) -> (r: Self)
        ensures
            r@ == first_state(now@),
            app_ok(r@),
            stream_ok(r@),
    {
        let mut form: Vec<FormField> = Vec::new();
        let mut i: usize = 0;
        while i < FIELD_COUNT
            invariant
                i <= FIELD_COUNT,
                form@.len() == i,
                forall|k: int| 0 <= k < i ==> (#[trigger] form@[k])@ == empty_form()[k],
            decreases FIELD_COUNT - i,
        {
            form.push(form_field(i));
            i += 1;
        }
        let mut history: Vec<ChatItem> = Vec::new();
        history.push(
            ChatItem::new("system", "AgentRust · 输入 / 打开命令菜单，其他内容发送给模型", now),
        );
        let r = ChatApp {
            mode: Mode::Chat,
            history,
            input: String::new(),
            input_history: Vec::new(),
            input_history_idx: None,
            busy: false,
            connected: false,
            status: String::new(),
            form,
            form_active: 0,
            streaming_item: None,
            usage_str: String::new(),
            cmd_menu: None,
            scroll_offset: 0,
            spinner_frame: 0,
            total_input_tokens: 0,
            total_output_tokens: 0,
        };
        proof {
            let want = first_state(now@);
            assert(r@.form =~= want.form);
            assert(r@.history =~= want.history);
            assert(r@.input =~= want.input);
            assert(r@.input_history =~= want.input_history);
            assert(r@.status =~= want.status);
            assert(r@.usage_str =~= want.usage_str);
        }
        r
    }

    fn note(&mut self, role: &str, t: &str, now: &str)
        ensures
            final(self)@ == noted(old(self)@, role@, t@, now@),
    {
        let ghost before = self.history@;
        let item = ChatItem::new(role, t, now);
        self.history.push(item);
        assert(item_views(self.history@) =~= item_views(before).push(item@));
    }

    fn clear_history(&mut self, note: &str, now: &str)
        ensures
            final(self)@ == cleared(old(self)@, note@, now@),
    {
        self.history = Vec::new();
        assert(item_views(self.history@) =~= Seq::empty());
        self.note("system", note, now);
    }

    fn clear_input(&mut self)
        ensures
            final(self)@ == (AppView { input: Seq::empty(), ..old(self)@ }),
    {
        self.input = String::new();
        assert(self.input@ =~= Seq::<char>::empty());
    }

    fn set_value(&mut self, i: usize, value: String)
        requires
            i < old(self)@.form.len(),
        ensures
            final(self)@ == (AppView {
                form: with_value(old(self)@.form, i as int, value@),
                ..old(self)@
            }),
    {
        let ghost before = self.form@;
        let f = FormField { label: self.form[i].label, value, hint: self.form[i].hint.clone() };
        self.form.set(i, f);
        assert(field_views(self.form@) =~= with_value(field_views(before), i as int, value@));
    }

    /// Fills the form from the settings.
    pub fn load_form(&mut self, auth: &Json)
        requires
            app_ok(old(self)@),
        ensures
            final(self)@ == (AppView {
                form: loaded_form(old(self)@.form, auth@),
                ..old(self)@
            }),
            app_ok(final(self)@),
    {
        let kind = setup::provider_setting(auth);
        let vendor = first_word(kind.as_str());
        self.set_value(0, kind);
        self.set_value(1, section_text(auth, vendor.as_str(), "base_url"));
        self.set_value(2, section_text(auth, vendor.as_str(), "api_key"));
        self.set_value(3, auth.text_member("default_model"));
    }

    /// The patch to the settings that the form stands for.
    pub fn save_form(&self) -> (r: Result<Json, String>)
        requires
            app_ok(self@),
        ensures
            (match r {
                Ok(j) => Ok(j@),
                Err(m) => Err(m@),
            }) == patch_of(self@.form),
            r matches Ok(j) ==> j@ is Object,
    {
        let kind = match ProviderKind::parse(self.form[0].value.as_str()) {
            Some(k) => k,
            None => {
                let mut m = text::cat("未知类型: '", self.form[0].value.as_str());
                m.append("'");
                return Err(m);
            },
        };
        let mut section = Json::object();
        if !self.form[1].value.as_str().is_empty() {
            section = section.with("base_url", Json::of_str(self.form[1].value.as_str()));
        }
        if !self.form[2].value.as_str().is_empty() {
            section = section.with("api_key", Json::of_str(self.form[2].value.as_str()));
        }
        let mut patch = Json::object().with(
            "provider",
            Json::of_str(kind.display().as_str()),
        ).with(kind.id(), section);
        if !self.form[3].value.as_str().is_empty() {
            patch = patch.with("default_model", Json::of_str(self.form[3].value.as_str()));
        }
        Ok(patch)
    }

    /// Takes in what came of writing the settings file.
    pub fn saved(&mut self, r: SaveResult)
        ensures
            final(self)@ == after_save(old(self)@, r),
    {
        match r {
            SaveResult::Written => {
                self.mode = Mode::Chat;
                self.status = "设置已保存".to_owned();
            },
            SaveResult::NoHome => {
                self.status = "没有 HOME/USERPROFILE 目录，无法写入 auth.json".to_owned();
            },
            SaveResult::Error(m) => {
                self.status = text::cat("写入失败：", m.as_str());
            },
        }
    }

    /// Puts the input into the input history.
    pub fn push_input_history(&mut self)
        ensures
            final(self)@ == remembered(old(self)@),
    {
        if !text::is_blank(self.input.as_str()) {
            let t = self.input.clone();
            let ghost before = self.input_history@;
            self.input_history.push(t);
            assert(text::strs(self.input_history@) =~= text::strs(before).push(t@));
        }
        self.input_history_idx = None;
    }

    /// Recalls the input before the current one.
    pub fn recall_prev(&mut self)
        requires
            app_ok(old(self)@),
        ensures
            final(self)@ == recalled_prev(old(self)@),
            app_ok(final(self)@),
    {
        if self.input_history.len() == 0 {
            return;
        }
        let i: usize = match self.input_history_idx {
            Some(i) => if i > 0 {
                i - 1
            } else {
                i
            },
            None => self.input_history.len() - 1,
        };
        self.input_history_idx = Some(i);
        assert(self@.input_history[i as int] == self.input_history@[i as int]@);
        self.input = self.input_history[i].clone();
    }

    /// Recalls the input behind the current one.
    pub fn recall_next(&mut self)
        requires
            app_ok(old(self)@),
        ensures
            final(self)@ == recalled_next(old(self)@),
            app_ok(final(self)@),
    {
        if let Some(i) = self.input_history_idx {
            if i < self.input_history.len() - 1 {
                self.input_history_idx = Some(i + 1);
                assert(self@.input_history[i + 1] == self.input_history@[i + 1]@);
                self.input = self.input_history[i + 1].clone();
            } else {
                self.input_history_idx = None;
                self.clear_input();
            }
        }
    }

    /// Completes a command.
    pub fn tab_complete(&mut self, now: &str)
        ensures
            final(self)@ == completed(old(self)@, now@),
    {
        let t = text::trim_start(self.input.as_str());
        if !text::starts_with(t.as_str(), "/") {
            proof {
                lemma_slash(t@);
            }
            return;
        }
        proof {
            lemma_slash(t@);
        }
        let mut found: Vec<String> = Vec::new();
        let mut i: usize = 0;
        assert(text::strs(found@) =~= matching(t@, 0));
        while i < COMMAND_COUNT
            invariant
                i <= COMMAND_COUNT,
                text::strs(found@) == matching(t@, i as nat),
            decreases COMMAND_COUNT - i,
        {
            if text::starts_with(command(i), t.as_str()) {
                let c = command(i).to_owned();
                let ghost before = found@;
                found.push(c);
                assert(text::strs(found@) =~= text::strs(before).push(c@));
            }
            i += 1;
        }
        if found.len() == 1 {
            assert(matching(t@, 6)[0] == found@[0]@);
            self.input = text::cat(found[0].as_str(), " ");
        } else if found.len() > 1 {
            let list = text::join(&found, ", ");
            self.note("system", text::cat("可补全: ", list.as_str()).as_str(), now);
        }
    }

    /// Sends a text: it goes to the transcript, with an empty answer to be streamed. Returns
    /// whether it was sent; it is not while an answer streams.
    pub fn send(&mut self, t: &str, now: &str) -> (r: bool)
        ensures
            final(self)@ == sent(old(self)@, t@, now@),
            r == !old(self).busy,
            app_ok(old(self)@) ==> app_ok(final(self)@),
            stream_ok(old(self)@) ==> stream_ok(final(self)@),
    {
        if self.busy {
            self.status = "正在生成中，请稍候…".to_owned();
            return false;
        }
        self.push_input_history();
        self.note("user", t, now);
        self.clear_input();
        self.connected = true;
        self.busy = true;
        self.status = "生成中…".to_owned();
        self.scroll_offset = 0;
        let i = self.history.len();
        self.note("assistant", "", now);
        self.streaming_item = Some(i);
        proof {
            reveal_strlit("");
            assert(""@ =~= Seq::<char>::empty());
        }
        true
    }

    fn set_item(&mut self, i: usize, item: ChatItem)
        requires
            i < old(self)@.history.len(),
        ensures
            final(self)@ == (AppView {
                history: old(self)@.history.update(i as int, item@),
                ..old(self)@
            }),
    {
        let ghost before = self.history@;
        self.history.set(i, item);
        assert(item_views(self.history@) =~= item_views(before).update(i as int, item@));
    }

    fn count_usage(&mut self, rest: &str)
        ensures
            ({
                let t = counted(
                    (old(self).total_input_tokens, old(self).total_output_tokens),
                    text::words(rest@),
                );
                final(self)@ == (AppView {
                    total_input_tokens: t.0,
                    total_output_tokens: t.1,
                    ..old(self)@
                })
            }),
    {
        let ghost start = (self.total_input_tokens, self.total_output_tokens);
        let ghost a = self@;
        let words = text::split_words(rest);
        let ghost w = text::words(rest@);
        assert(words@.map_values(|w: String| w@) == w);
        let mut i: usize = 0;
        assert(w.take(0) =~= Seq::<Seq<char>>::empty());
        while i < words.len()
            invariant
                i <= words@.len(),
                w.len() == words@.len(),
                w == words@.map_values(|w: String| w@),
                (self.total_input_tokens, self.total_output_tokens) == counted(
                    start,
                    w.take(i as int),
                ),
                self@ == (AppView {
                    total_input_tokens: self.total_input_tokens,
                    total_output_tokens: self.total_output_tokens,
                    ..a
                }),
            decreases words@.len() - i,
        {
            proof {
                assert(w.take(i + 1).drop_last() =~= w.take(i as int));
                assert(w.take(i + 1).last() == words@[i as int]@);
            }
            self.total_input_tokens = add_count(
                self.total_input_tokens,
                words[i].as_str(),
                "输入=",
            );
            self.total_output_tokens = add_count(
                self.total_output_tokens,
                words[i].as_str(),
                "输出=",
            );
            i += 1;
        }
        assert(w.take(w.len() as int) =~= w);
    }

    fn take_msg(&mut self, msg: StreamMsg, now: &str)
        requires
            app_ok(old(self)@),
            stream_ok(old(self)@),
        ensures
            final(self)@ == on_msg(old(self)@, msg@, now@),
            app_ok(final(self)@),
            stream_ok(final(self)@),
    {
        let ghost a = self@;
        match msg {
            StreamMsg::Delta(d) => {
                if let Some(i) = self.streaming_item {
                    assert(a.history[i as int] == self.history@[i as int]@);
                    let item = ChatItem {
                        role: self.history[i].role.clone(),
                        text: text::cat(self.history[i].text.as_str(), d.as_str()),
                        time: self.history[i].time.clone(),
                    };
                    self.set_item(i, item);
                }
            },
            StreamMsg::Done(t) => {
                match text::strip_prefix(t.as_str(), "用量：") {
                    Some(rest) => {
                        self.count_usage(rest.as_str());
                        self.usage_str = t;
                    },
                    None => {
                        self.busy = false;
                        if let Some(i) = self.streaming_item {
                            assert(a.history[i as int] == self.history@[i as int]@);
                            let item = ChatItem {
                                role: self.history[i].role.clone(),
                                text: self.history[i].text.clone(),
                                time: now.to_owned(),
                            };
                            self.set_item(i, item);
                        }
                        self.streaming_item = None;
                        if self.usage_str.as_str().is_empty() {
                            self.status = t;
                        } else {
                            self.status = self.usage_str.clone();
                        }
                        self.usage_str = String::new();
                        assert(self.usage_str@ =~= Seq::<char>::empty());
                    },
                }
            },
            StreamMsg::Failed(e) => {
                let m = text::cat("错误：", e.as_str());
                self.note("system", m.as_str(), now);
                self.status = m;
                self.busy = false;
                self.connected = false;
                self.streaming_item = None;
            },
        }
    }

    /// Whether the item that is being streamed is in the transcript, so that messages of the
    /// stream can be taken in.
    pub fn stream_ready(&self) -> (r: bool)
        ensures
            r == stream_ok(self@),
    {
        match self.streaming_item {
            Some(i) => i < self.history.len(),
            None => true,
        }
    }

    /// Does the work before a frame: takes in the messages that came since the last frame and
    /// turns the spinner where its time is up. Returns whether the frame is drawn.
    pub fn begin_frame(&mut self, msgs: Vec<StreamMsg>, now: &str, due: bool) -> (r: bool)
        requires
            app_ok(old(self)@),
            stream_ok(old(self)@),
        ensures
            (final(self)@, r) == frame_begun(old(self)@, msg_views(msgs@), now@, due),
            app_ok(final(self)@),
            stream_ok(final(self)@),
    {
        let ghost a = self@;
        let ghost all = msgs@;
        let ghost v = msg_views(all);
        let mut rest = msgs;
        let mut failed = false;
        let ghost mut done: int = 0;
        assert(v.take(0) =~= Seq::<StreamMsgView>::empty());
        while rest.len() > 0
            invariant
                0 <= done <= all.len(),
                v == msg_views(all),
                rest@ =~= all.skip(done),
                app_ok(self@),
                stream_ok(self@),
                self@ == on_msgs(a, v.take(done), now@),
                failed == any_failed(v.take(done)),
            decreases rest@.len(),
        {
            assert(rest@[0] == all[done]);
            proof {
                assert(v.take(done + 1).drop_last() =~= v.take(done));
                assert(v.take(done + 1).last() == all[done]@);
                lemma_any_failed(v.take(done + 1));
            }
            let m = rest.remove(0);
            if let StreamMsg::Failed(_) = &m {
                failed = true;
            }
            self.take_msg(m, now);
            proof {
                done = done + 1;
            }
        }
        assert(v.take(v.len() as int) =~= v);
        if failed {
            self.connected = false;
            return false;
        }
        if self.connected && !self.busy && self.streaming_item.is_none() {
            self.connected = false;
        }
        if self.busy && due {
            self.spinner_frame = self.spinner_frame.wrapping_add(1);
        }
        true
    }

    fn count_role(&self, role: &str) -> (r: usize)
        ensures
            r == role_count(self@.history, role@),
    {
        let ghost s = self@.history;
        let mut n: usize = 0;
        let mut i: usize = 0;
        assert(s.take(0) =~= Seq::<ItemView>::empty());
        while i < self.history.len()
            invariant
                i <= self.history@.len(),
                s == item_views(self.history@),
                n <= i,
                n == role_count(s.take(i as int), role@),
            decreases self.history@.len() - i,
        {
            proof {
                assert(s.take(i + 1).drop_last() =~= s.take(i as int));
                assert(s.take(i + 1).last() == self.history@[i as int]@);
            }
            if text::str_eq(self.history[i].role.as_str(), role) {
                n += 1;
            }
            i += 1;
        }
        assert(s.take(s.len() as int) =~= s);
        n
    }

    fn stats(&self) -> (r: String)
        ensures
            r@ == stats_text(self@),
    {
        let mut t = text::cat("消息数: ", text::usize_text(self.history.len()).as_str());
        t.append(" (用户: ");
        t.append(text::usize_text(self.count_role("user")).as_str());
        t.append(", 助手: ");
        t.append(text::usize_text(self.count_role("assistant")).as_str());
        t.append(")\nToken: 输入 ");
        t.append(text::u64_text(self.total_input_tokens).as_str());
        t.append(" / 输出 ");
        t.append(text::u64_text(self.total_output_tokens).as_str());
        t
    }

    /// The model as it is shown.
    pub fn model_shown(&self) -> (r: String)
        requires
            app_ok(self@),
        ensures
            r@ == shown_model(self@),
    {
        if self.form[3].value.as_str().is_empty() {
            "（未设置）".to_owned()
        } else {
            self.form[3].value.clone()
        }
    }

    fn command_effect(&mut self, cmd: &str, now: &str, auth: &Json)
        requires
            app_ok(old(self)@),
        ensures
            final(self)@ == commanded(old(self)@, cmd@, now@, auth@),
            app_ok(final(self)@),
    {
        if text::str_eq(cmd, command(0)) {
            self.load_form(auth);
            self.mode = Mode::Settings;
            self.status = String::new();
            assert(self.status@ =~= Seq::<char>::empty());
        } else if text::str_eq(cmd, command(1)) {
            self.note(
                "system",
                "快捷键：\n  ↑/↓    翻阅输入历史\n  Tab    命令补全\n  PgUp/Dn 滚动聊天记录\n  Esc    取消生成\n  Ctrl+C  退出\n  Ctrl+L  清屏\n\n命令：\n  /设置    配置\n  /清空    清空记录\n  /统计    统计信息\n  /模型    当前模型\n  /帮助    帮助\n  /退出    退出",
                now,
            );
        } else if text::str_eq(cmd, command(2)) {
            self.clear_history("AgentRust · 记录已清空", now);
            self.total_input_tokens = 0;
            self.total_output_tokens = 0;
        } else if text::str_eq(cmd, command(3)) {
            let t = self.stats();
            self.note("system", t.as_str(), now);
        } else if text::str_eq(cmd, command(4)) {
            let mut t = text::cat("服务商: ", self.form[0].value.as_str());
            t.append("\n模型: ");
            t.append(self.model_shown().as_str());
            assert(t@ == model_text(self@));
            self.note("system", t.as_str(), now);
        }
    }
}

fn add_count(n: u64, word: &str, key: &str) -> (r: u64)
    ensures
        r == added(n, word@, key@),
{
    match text::strip_prefix(word, key) {
        Some(v) => match text::parse_u64(v.as_str()) {
            Some(k) => n.wrapping_add(k),
            None => n,
        },
        None => n,
    }
}

/// The views of a list of messages.
pub open spec fn msg_views(s: Seq<StreamMsg>) -> Seq<StreamMsgView> {
    s.map_values(|m: StreamMsg| m@)
}

proof fn lemma_any_failed(s: Seq<StreamMsgView>)
    requires
        s.len() > 0,
    ensures
        any_failed(s) == (any_failed(s.drop_last()) || s.last() is Failed),
{
    if any_failed(s.drop_last()) {
        let i = choose|i: int| 0 <= i < s.drop_last().len() && #[trigger] s.drop_last()[i] is Failed;
        assert(s[i] is Failed);
    }
    if s.last() is Failed {
        assert(s[s.len() - 1] is Failed);
    }
    if any_failed(s) {
        let i = choose|i: int| 0 <= i < s.len() && #[trigger] s[i] is Failed;
        if i < s.len() - 1 {
            assert(s.drop_last()[i] is Failed);
        }
    }
}

proof fn lemma_slash(t: Seq<char>)
    ensures
        text::has_prefix(t, "/"@) == (t.len() > 0 && t[0] == '/'),
{
    reveal_strlit("/");
    assert("/"@ =~= seq!['/']);
    if t.len() > 0 {
        assert(t.take(1) =~= seq![t[0]]);
        if t[0] != '/' {
            assert(seq![t[0]][0] != "/"@[0]);
        }
    }
}

proof fn lemma_commands_differ(i: int)
    requires
        0 <= i < 5,
    ensures
        command_name(i) != command_name(5),
        command_name(5) == "/退出"@,
{
    reveal_strlit("/设置");
    reveal_strlit("/帮助");
    reveal_strlit("/清空");
    reveal_strlit("/统计");
    reveal_strlit("/模型");
    reveal_strlit("/退出");
    assert("/设置"@[1] != "/退出"@[1]);
    assert("/帮助"@[1] != "/退出"@[1]);
    assert("/清空"@[1] != "/退出"@[1]);
    assert("/统计"@[1] != "/退出"@[1]);
    assert("/模型"@[1] != "/退出"@[1]);
}

/// Runs a command from the menu. Returns false where it is the quit command.
pub fn run_command(app: &mut ChatApp, cmd: &str, now: &str, auth: &Json) -> (r: bool)
    requires
        app_ok(old(app)@),
    ensures
        final(app)@ == picked(old(app)@, cmd@, now@, auth@),
        r == (cmd@ != command_name(5)),
        app_ok(final(app)@),
{
    app.cmd_menu = None;
    app.clear_input();
    app.command_effect(cmd, now, auth);
    !text::str_eq(cmd, command(5))
}

/// Handles a key in the settings view.
pub fn handle_settings_key(app: &mut ChatApp, key: Key) -> (r: KeyOutcome)
    requires
        app_ok(old(app)@),
    ensures
        (final(app)@, r@) == on_settings_key(old(app)@, key),
        app_ok(final(app)@),
        r matches KeyOutcome::Save(j) ==> j@ is Object,
{
    let i = app.form_active;
    match key {
        Key::Esc => {
            app.mode = Mode::Chat;
            app.status = "已放弃修改".to_owned();
        },
        Key::Up => {
            app.form_active = if i > 0 {
                i - 1
            } else {
                0
            };
        },
        Key::Down => {
            app.form_active = if i < FIELD_COUNT - 1 {
                i + 1
            } else {
                FIELD_COUNT - 1
            };
        },
        Key::Tab => {
            app.form_active = (i + 1) % FIELD_COUNT;
        },
        Key::Left | Key::Right => {
            if i == 0 {
                let right = match key {
                    Key::Right => true,
                    _ => false,
                };
                let next = cycle_kind(app.form[0].value.as_str(), right).to_owned();
                app.set_value(0, next);
            }
        },
        Key::Enter => {
            match app.save_form() {
                Ok(patch) => {
                    return KeyOutcome::Save(patch);
                },
                Err(m) => {
                    app.status = m;
                },
            }
        },
        Key::Backspace => {
            if i != 0 {
                let mut v = app.form[i].value.clone();
                let ghost f = app@.form;
                v.pop();
                app.set_value(i, v);
                proof {
                    if f[i as int].value.len() == 0 {
                        assert(with_value(f, i as int, f[i as int].value) =~= f);
                    }
                }
            }
        },
        Key::Char(c) => {
            if i != 0 {
                let mut v = app.form[i].value.clone();
                v.push(c);
                app.set_value(i, v);
            }
        },
        _ => {},
    }
    KeyOutcome::Continue
}

fn handle_menu_key(app: &mut ChatApp, sel: usize, key: Key, now: &str, auth: &Json) -> (r: KeyOutcome)
    requires
        app_ok(old(app)@),
        old(app).cmd_menu == Some(sel),
    ensures
        (final(app)@, r@) == on_menu_key(old(app)@, sel, key, now@, auth@),
        app_ok(final(app)@),
        r !is Save,
{
    match key {
        Key::Up => {
            app.cmd_menu = Some((sel + COMMAND_COUNT - 1) % COMMAND_COUNT);
        },
        Key::Down => {
            app.cmd_menu = Some((sel + 1) % COMMAND_COUNT);
        },
        Key::Enter | Key::Tab => {
            proof {
                if sel < 5 {
                    lemma_commands_differ(sel as int);
                }
            }
            if !run_command(app, command(sel), now, auth) {
                return KeyOutcome::Quit;
            }
        },
        Key::Esc | Key::Backspace => {
            app.cmd_menu = None;
            app.clear_input();
        },
        Key::Char(c) => {
            if c == '/' {
                app.input.push('/');
            }
        },
        _ => {},
    }
    KeyOutcome::Continue
}

fn handle_enter(app: &mut ChatApp, now: &str, auth: &Json) -> (r: KeyOutcome)
    requires
        app_ok(old(app)@),
    ensures
        (final(app)@, r@) == on_enter(old(app)@, now@, auth@),
        app_ok(final(app)@),
        r !is Save,
{
    let t = text::trim(app.input.as_str());
    if t.as_str().is_empty() {
        return KeyOutcome::Continue;
    }
    if text::str_eq(t.as_str(), command(5)) || text::str_eq(t.as_str(), "/quit") {
        return KeyOutcome::Quit;
    }
    if text::str_eq(t.as_str(), command(0)) || text::str_eq(t.as_str(), command(1))
        || text::str_eq(t.as_str(), command(2)) || text::str_eq(t.as_str(), command(3))
        || text::str_eq(t.as_str(), command(4)) {
        app.command_effect(t.as_str(), now, auth);
        app.clear_input();
        return KeyOutcome::Continue;
    }
    if app.send(t.as_str(), now) {
        KeyOutcome::Send(t)
    } else {
        KeyOutcome::Continue
    }
}

/// Handles a key in the chat view. `ctrl` says whether the control key is held.
pub fn handle_chat_key(app: &mut ChatApp, key: Key, ctrl: bool, now: &str, auth: &Json) -> (r:
    KeyOutcome)
    requires
        app_ok(old(app)@),
    ensures
        (final(app)@, r@) == on_chat_key(old(app)@, key, ctrl, now@, auth@),
        app_ok(final(app)@),
        r !is Save,
{
    if ctrl && key == Key::Char('c') {
        return KeyOutcome::Quit;
    }
    if ctrl && key == Key::Char('l') {
        app.clear_history("AgentRust · 屏幕已清空", now);
        return KeyOutcome::Continue;
    }
    if key == Key::Esc {
        if app.cmd_menu.is_some() {
            app.cmd_menu = None;
            app.clear_input();
            return KeyOutcome::Continue;
        }
        if app.busy {
            app.busy = false;
            app.streaming_item = None;
            app.connected = false;
            app.status = "已取消".to_owned();
            return KeyOutcome::Continue;
        }
    }
    if key == Key::PageUp {
        app.scroll_offset = app.scroll_offset.saturating_add(5);
        return KeyOutcome::Continue;
    }
    if key == Key::PageDown {
        app.scroll_offset = app.scroll_offset.saturating_sub(5);
        return KeyOutcome::Continue;
    }
    if let Some(sel) = app.cmd_menu {
        if text::str_eq(app.input.as_str(), "/") {
            return handle_menu_key(app, sel, key, now, auth);
        }
    }
    match key {
        Key::Enter => {
            return handle_enter(app, now, auth);
        },
        Key::Up => {
            app.recall_prev();
        },
        Key::Down => {
            app.recall_next();
        },
        Key::Tab => {
            app.tab_complete(now);
        },
        Key::Backspace => {
            app.input.pop();
            if app.input.as_str().is_empty() {
                app.cmd_menu = None;
            }
        },
        Key::Char(c) => {
            proof {
                lemma_slash(app@.input);
            }
            if c == '/' && app.input.as_str().is_empty() {
                app.input.push(c);
                app.cmd_menu = Some(0);
            } else if c != '/' || !text::starts_with(app.input.as_str(), "/") {
                app.input.push(c);
            }
        },
        _ => {},
    }
    KeyOutcome::Continue
}

/// Handles a key. `ctrl` says whether the control key is held, `auth` holds the settings.
pub fn handle_key(app: &mut ChatApp, key: Key, ctrl: bool, now: &str, auth: &Json) -> (r: KeyOutcome)
    requires
        app_ok(old(app)@),
    ensures
        (final(app)@, r@) == on_key(old(app)@, key, ctrl, now@, auth@),
        app_ok(final(app)@),
        r matches KeyOutcome::Save(j) ==> j@ is Object,
{
    match app.mode {
        Mode::Settings => handle_settings_key(app, key),
        Mode::Chat => handle_chat_key(app, key, ctrl, now, auth),
    }
}

// ---- asking the model -----------------------------------------------------------------------------

/// The request for a text: a conversation of one message, without tools or thinking.
pub open spec fn chat_request(model: ModelView, t: Seq<char>) -> ProviderRequestView {
    ProviderRequestView {
        model,
        system: Seq::empty(),
        messages: seq![
            ChatMessageView { role: "user"@, parts: seq![PartView::Text { text: t }] },
        ],
        thinking: ThinkingLevel::Off,
        max_tokens: 4096,
        tools: Seq::empty(),
    }
}

/// The provider that the settings and the credentials configure for a kind.
pub open spec fn chat_provider(
    k: KindView,
    auth: JVal,
    creds: Map<Seq<char>, Seq<char>>,
) -> ProviderView {
    let key = match provider::resolved_key(k, None, auth, setup::credential(creds, k.vendor)) {
        Some(key) => key,
        None => Seq::empty(),
    };
    provider::built(k, Some(key), None, auth)
}

/// The HTTP request that asks the configured model, or why there is none.
pub open spec fn planned(
    auth: JVal,
    creds: Map<Seq<char>, Seq<char>>,
    t: Seq<char>,
) -> Result<HttpRequestView, Seq<char>> {
    match provider::parsed_kind(setup::configured_provider(auth)) {
        None => Err("没有配置有效的 provider；请执行 /settings 设置"@),
        Some(k) => match setup::chosen_model(k, None, auth) {
            None => Err("未配置模型"@),
            Some(m) => match provider::provider_http(
                chat_provider(k, auth, creds),
                chat_request(m, t),
            ) {
                Ok(h) => Ok(h),
                Err(e) => Err(error::ai_message(e)),
            },
        },
    }
}

/// The HTTP request that asks the configured model, with the format of its answer; or the
/// error to show.
pub fn plan_request(auth: &Json, creds: &Credentials, t: &str) -> (r: Result<
    (HttpRequest, Option<Wire>),
    String,
>)
    ensures
        match (r, planned(auth@, creds@, t@)) {
            (Ok((h, wire)), Ok(want)) => h@ == want && wire == (if provider::parsed_kind(
                setup::configured_provider(auth@),
            )->Some_0.api is Messages {
                Some(Wire::Anthropic)
            } else {
                Some(Wire::ChatCompletions)
            }),
            (Err(m), Err(want)) => m@ == want,
            _ => false,
        },
{
    let name = setup::provider_setting(auth);
    let kind = match ProviderKind::parse(name.as_str()) {
        Some(k) => k,
        None => {
            return Err("没有配置有效的 provider；请执行 /settings 设置".to_owned());
        },
    };
    proof {
        provider::parsed_kinds_are_known(name@);
    }
    let key = match kind.resolve_key(None, auth, setup::credential_of(creds, kind.id())) {
        Some(k) => k,
        None => String::new(),
    };
    let model = match setup::choose_model(&kind, None, auth) {
        Some(m) => m,
        None => {
            return Err("未配置模型".to_owned());
        },
    };
    let mut pc = ProviderClient::new();
    pc.setup(kind, Some(key), None, auth);
    proof {
        provider::setup_serves_its_vendor(
            Seq::empty(),
            kind@,
            Some(key@),
            None,
            auth@,
            model@,
        );
    }
    let mut parts: Vec<Part> = Vec::new();
    parts.push(Part::Text { text: t.to_owned() });
    let m = ChatMessage { role: "user".to_owned(), parts };
    let mut list: Vec<ChatMessage> = Vec::new();
    list.push(m);
    let req = ProviderRequest {
        model: model.clone(),
        system: String::new(),
        messages: list,
        thinking: ThinkingLevel::Off,
        max_tokens: 4096,
        tools: Vec::new(),
    };
    proof {
        let want = chat_request(model@, t@);
        assert(m@.parts =~= want.messages[0].parts);
        assert(req@.messages =~= want.messages);
        assert(req@.tools =~= want.tools);
        assert(req@.system =~= want.system);
    }
    match pc.provider_for(&model) {
        Some(p) => match p.chat(&req) {
            Ok(h) => Ok((h, p.wire())),
            Err(e) => Err(e.message()),
        },
        None => Err(text::cat("没有可用的 provider：", model.id.as_str())),
    }
}

/// The usage message.
pub open spec fn usage_line(u: Usage) -> Seq<char> {
    "用量：输入="@ + text::decimal(u.input as nat) + " 输出="@ + text::decimal(u.output as nat)
        + " 缓存读="@ + text::decimal(u.cache_read as nat) + " 缓存写="@ + text::decimal(
        u.cache_write as nat,
    ) + " 总计="@ + text::decimal(u.total as nat)
}

/// The name of a stop reason.
pub open spec fn stop_name(s: StopReason) -> Seq<char> {
    match s {
        StopReason::Stop => "Stop"@,
        StopReason::Length => "Length"@,
        StopReason::ToolUse => "ToolUse"@,
        StopReason::Error => "Error"@,
        StopReason::Aborted => "Aborted"@,
    }
}

/// The message that an item of the answer becomes; most items become none.
pub open spec fn item_msg(item: Result<StreamEventView, AiErrorView>) -> Option<StreamMsgView> {
    match item {
        Ok(StreamEventView::TextDelta { delta }) => Some(StreamMsgView::Delta(delta)),
        Ok(StreamEventView::Usage { usage }) => Some(StreamMsgView::Done(usage_line(usage))),
        Ok(StreamEventView::Done { stop_reason }) => Some(
            StreamMsgView::Done("结束："@ + stop_name(stop_reason)),
        ),
        Err(e) => Some(StreamMsgView::Failed(error::ai_message(e))),
        _ => None,
    }
}

fn usage_text(u: &Usage) -> (r: String)
    ensures
        r@ == usage_line(*u),
{
    let mut t = text::cat("用量：输入=", text::u64_text(u.input).as_str());
    t.append(" 输出=");
    t.append(text::u64_text(u.output).as_str());
    t.append(" 缓存读=");
    t.append(text::u64_text(u.cache_read).as_str());
    t.append(" 缓存写=");
    t.append(text::u64_text(u.cache_write).as_str());
    t.append(" 总计=");
    t.append(text::u64_text(u.total).as_str());
    t
}

/// The message that an item of the answer becomes.
pub fn stream_msg(item: Result<StreamEvent, AiError>) -> (r: Option<StreamMsg>)
    ensures
        (match r {
            Some(m) => Some(m@),
            None => None,
        }) == item_msg(stream::item_view(item)),
{
    match item {
        Ok(StreamEvent::TextDelta { delta }) => Some(StreamMsg::Delta(delta)),
        Ok(StreamEvent::Usage { usage }) => Some(StreamMsg::Done(usage_text(&usage))),
        Ok(StreamEvent::Done { stop_reason }) => {
            let name = match stop_reason {
                StopReason::Stop => "Stop",
                StopReason::Length => "Length",
                StopReason::ToolUse => "ToolUse",
                StopReason::Error => "Error",
                StopReason::Aborted => "Aborted",
            };
            Some(StreamMsg::Done(text::cat("结束：", name)))
        },
        Err(e) => Some(StreamMsg::Failed(e.message())),
        _ => None,
    }
}

/// The usage message of an answer that came in one piece.
pub open spec fn short_usage_line(u: Usage) -> Seq<char> {
    "用量：输入="@ + text::decimal(u.input as nat) + " 输出="@ + text::decimal(u.output as nat)
}

/// The messages of an answer that came in one piece: its text, then its usage.
pub fn whole_msgs(t: String, usage: &Usage) -> (r: (StreamMsg, StreamMsg))
    ensures
        r.0@ == StreamMsgView::Delta(t@),
        r.1@ == StreamMsgView::Done(short_usage_line(*usage)),
{
    let mut u = text::cat("用量：输入=", text::u64_text(usage.input).as_str());
    u.append(" 输出=");
    u.append(text::u64_text(usage.output).as_str());
    (StreamMsg::Delta(t), StreamMsg::Done(u))
}

// ---- laws -----------------------------------------------------------------------------------------

proof fn lemma_kinds_differ()
    ensures
        kind_name(0) != kind_name(1),
        kind_name(0) != kind_name(2),
        kind_name(0) != kind_name(3),
        kind_name(1) != kind_name(2),
        kind_name(1) != kind_name(3),
        kind_name(2) != kind_name(3),
{
    reveal_strlit("anthropic messages");
    reveal_strlit("openai chat");
    reveal_strlit("openai responses");
    reveal_strlit("deepseek chat");
    assert(kind_name(0).len() != kind_name(1).len());
    assert(kind_name(0).len() != kind_name(2).len());
    assert(kind_name(0).len() != kind_name(3).len());
    assert(kind_name(1).len() != kind_name(2).len());
    assert(kind_name(1).len() != kind_name(3).len());
    assert(kind_name(2).len() != kind_name(3).len());
}

/// Going one kind on and one back, or back and on, leads to the same kind.
pub proof fn cycling_back_undoes(i: int)
    requires
        0 <= i < 4,
    ensures
        cycled(cycled(kind_name(i), true), false) == kind_name(i),
        cycled(cycled(kind_name(i), false), true) == kind_name(i),
{
    lemma_kinds_differ();
}

/// Whatever was there before, cycling gives one of the kinds that can be chosen.
pub proof fn cycling_gives_a_known_kind(current: Seq<char>, right: bool)
    ensures
        provider::parsed_kind(cycled(current, right)) is Some,
        provider::shown_kind(provider::parsed_kind(cycled(current, right))->Some_0) == cycled(
            current,
            right,
        ),
{
    lemma_kind_names();
    let k0 = KindView { vendor: "anthropic"@, api: provider::ApiVariant::Messages };
    let k1 = KindView { vendor: "openai"@, api: provider::ApiVariant::Chat };
    let k2 = KindView { vendor: "openai"@, api: provider::ApiVariant::Responses };
    let k3 = KindView { vendor: "deepseek"@, api: provider::ApiVariant::Chat };
    provider::display_reads_back(k0);
    provider::display_reads_back(k1);
    provider::display_reads_back(k2);
    provider::display_reads_back(k3);
}

proof fn lemma_kind_names()
    ensures
        kind_name(0) == "anthropic"@ + " "@ + "messages"@,
        kind_name(1) == "openai"@ + " "@ + "chat"@,
        kind_name(2) == "openai"@ + " "@ + "responses"@,
        kind_name(3) == "deepseek"@ + " "@ + "chat"@,
{
    reveal_strlit("anthropic messages");
    reveal_strlit("openai chat");
    reveal_strlit("openai responses");
    reveal_strlit("deepseek chat");
    reveal_strlit("anthropic");
    reveal_strlit("openai");
    reveal_strlit("deepseek");
    reveal_strlit("messages");
    reveal_strlit("chat");
    reveal_strlit("responses");
    reveal_strlit(" ");
    assert(kind_name(0) =~= "anthropic"@ + " "@ + "messages"@);
    assert(kind_name(1) =~= "openai"@ + " "@ + "chat"@);
    assert(kind_name(2) =~= "openai"@ + " "@ + "responses"@);
    assert(kind_name(3) =~= "deepseek"@ + " "@ + "chat"@);
}

/// A step back and a step forward in the input history lead to the same input, unless the
/// step back stood at the first.
pub proof fn recall_forward_undoes_back(a: AppView)
    requires
        app_ok(a),
        a.input_history_idx matches Some(i) && i > 0 && a.input == a.input_history[i as int],
    ensures
        recalled_next(recalled_prev(a)) == a,
{
}

/// Moving down and up in the command menu leads to the same command.
pub proof fn menu_up_undoes_down(a: AppView, sel: usize, now: Seq<char>, auth: JVal)
    requires
        sel < 6,
        a.cmd_menu == Some(sel),
    ensures
        ({
            let down = on_menu_key(a, sel, Key::Down, now, auth).0;
            on_menu_key(down, down.cmd_menu->Some_0, Key::Up, now, auth).0 == a
        }),
{
}

/// An input that was sent can be recalled: one step back shows it.
pub proof fn sent_input_is_recalled(a: AppView, t: Seq<char>, now: Seq<char>)
    requires
        !a.busy,
        text::trimmed(a.input).len() > 0,
        a.input_history.len() < usize::MAX,
    ensures
        recalled_prev(sent(a, t, now)).input == a.input,
{
}

/// While an answer streams nothing is sent: only the status changes.
pub proof fn busy_refuses_to_send(a: AppView, t: Seq<char>, now: Seq<char>)
    requires
        a.busy,
    ensures
        sent(a, t, now) == (AppView { status: sent(a, t, now).status, ..a }),
{
}

/// The streamed text of an answer: the texts of the deltas, one after the other.
pub open spec fn deltas(s: Seq<StreamMsgView>) -> Seq<char>
    decreases s.len(),
{
    if s.len() == 0 {
        Seq::empty()
    } else {
        match s.last() {
            StreamMsgView::Delta(d) => deltas(s.drop_last()) + d,
            _ => deltas(s.drop_last()),
        }
    }
}

/// Deltas are added to the item that is being streamed, in order, and touch nothing else.
pub proof fn deltas_extend_the_streamed_item(
    a: AppView,
    i: usize,
    s: Seq<StreamMsgView>,
    now: Seq<char>,
)
    requires
        a.streaming_item == Some(i),
        i < a.history.len(),
        forall|k: int| 0 <= k < s.len() ==> #[trigger] s[k] is Delta,
    ensures
        on_msgs(a, s, now) == (AppView {
            history: a.history.update(
                i as int,
                ItemView {
                    text: a.history[i as int].text + deltas(s),
                    ..a.history[i as int]
                },
            ),
            ..a
        }),
    decreases s.len(),
{
    if s.len() == 0 {
        assert(a.history[i as int].text + deltas(s) =~= a.history[i as int].text);
        assert(a.history.update(i as int, a.history[i as int]) =~= a.history);
    } else {
        deltas_extend_the_streamed_item(a, i, s.drop_last(), now);
        let d = s.last()->Delta_0;
        let old_text = a.history[i as int].text;
        assert(old_text + deltas(s) =~= old_text + deltas(s.drop_last()) + d);
        assert(on_msgs(a, s, now).history =~= a.history.update(
            i as int,
            ItemView { text: old_text + deltas(s), ..a.history[i as int] },
        ));
    }
}

proof fn lemma_prefixed_word(key: Seq<char>, n: nat)
    requires
        text::is_word(key),
    ensures
        text::is_word(key + text::decimal(n)),
        text::after_prefix(key + text::decimal(n), key) == Some(text::decimal(n)),
{
    text::decimal_reads_back(n);
    let d = text::decimal(n);
    let w = key + d;
    assert forall|i: int| 0 <= i < w.len() implies !text::white_space(#[trigger] w[i]) by {
        if i < key.len() {
            assert(w[i] == key[i]);
        } else {
            assert(w[i] == d[i - key.len()]);
        }
    }
    assert(w.take(key.len() as int) =~= key);
    assert(w.skip(key.len() as int) =~= d);
}

proof fn lemma_usage_keys()
    ensures
        text::is_word("输入="@),
        text::is_word("输出="@),
        text::is_word("缓存读="@),
        text::is_word("缓存写="@),
        text::is_word("总计="@),
        "输入="@.len() == 3 && "输入="@[0] == '输' && "输入="@[1] == '入',
        "输出="@.len() == 3 && "输出="@[0] == '输' && "输出="@[1] == '出',
        "缓存读="@.len() == 4 && "缓存读="@[0] == '缓',
        "缓存写="@.len() == 4 && "缓存写="@[0] == '缓',
        "总计="@.len() == 3 && "总计="@[0] == '总',
        "用量：输入="@ == "用量："@ + "输入="@,
        " 输出="@ == seq![' '] + "输出="@,
        " 缓存读="@ == seq![' '] + "缓存读="@,
        " 缓存写="@ == seq![' '] + "缓存写="@,
        " 总计="@ == seq![' '] + "总计="@,
{
    reveal_strlit("输入=");
    reveal_strlit("输出=");
    reveal_strlit("缓存读=");
    reveal_strlit("缓存写=");
    reveal_strlit("总计=");
    reveal_strlit("用量：");
    reveal_strlit("用量：输入=");
    reveal_strlit(" 输出=");
    reveal_strlit(" 缓存读=");
    reveal_strlit(" 缓存写=");
    reveal_strlit(" 总计=");
    assert("用量：输入="@ =~= "用量："@ + "输入="@);
    assert(" 输出="@ =~= seq![' '] + "输出="@);
    assert(" 缓存读="@ =~= seq![' '] + "缓存读="@);
    assert(" 缓存写="@ =~= seq![' '] + "缓存写="@);
    assert(" 总计="@ =~= seq![' '] + "总计="@);
}

/// A word that begins otherwise adds nothing.
proof fn lemma_other_word(n: u64, w: Seq<char>, key: Seq<char>, i: int)
    requires
        0 <= i < key.len(),
        i < w.len(),
        w[i] != key[i],
    ensures
        added(n, w, key) == n,
{
    if text::has_prefix(w, key) {
        assert(w.take(key.len() as int)[i] == w[i]);
        assert(false);
    }
}

/// The usage that the provider reports is what the session's token counts grow by.
pub proof fn usage_is_counted(a: AppView, u: Usage, now: Seq<char>)
    ensures
        on_msg(a, StreamMsgView::Done(usage_line(u)), now) == (AppView {
            usage_str: usage_line(u),
            total_input_tokens: model::wrapped_sum(a.total_input_tokens, u.input),
            total_output_tokens: model::wrapped_sum(a.total_output_tokens, u.output),
            ..a
        }),
{
    lemma_usage_keys();
    let sp = seq![' '];
    let (k1, k2, k3, k4, k5) = (
        "输入="@,
        "输出="@,
        "缓存读="@,
        "缓存写="@,
        "总计="@,
    );
    let w1 = k1 + text::decimal(u.input as nat);
    let w2 = k2 + text::decimal(u.output as nat);
    let w3 = k3 + text::decimal(u.cache_read as nat);
    let w4 = k4 + text::decimal(u.cache_write as nat);
    let w5 = k5 + text::decimal(u.total as nat);
    lemma_prefixed_word(k1, u.input as nat);
    lemma_prefixed_word(k2, u.output as nat);
    lemma_prefixed_word(k3, u.cache_read as nat);
    lemma_prefixed_word(k4, u.cache_write as nat);
    lemma_prefixed_word(k5, u.total as nat);
    let r4 = w4 + sp + w5;
    let r3 = w3 + sp + r4;
    let r2 = w2 + sp + r3;
    let rest = w1 + sp + r2;
    text::two_words(w4, w5);
    text::first_of_words(w3, r4);
    text::first_of_words(w2, r3);
    text::first_of_words(w1, r2);
    let all = seq![w1, w2, w3, w4, w5];
    assert(text::words(rest) =~= all);
    assert(usage_line(u) =~= "用量："@ + rest);
    let head = "用量："@;
    assert(usage_line(u).take(head.len() as int) =~= head);
    assert(usage_line(u).skip(head.len() as int) =~= rest);
    let t0 = (a.total_input_tokens, a.total_output_tokens);
    text::decimal_reads_back(u.input as nat);
    text::decimal_reads_back(u.output as nat);
    let n = model::wrapped_sum(t0.0, u.input);
    let m = model::wrapped_sum(t0.1, u.output);
    lemma_other_word(t0.1, w1, k2, 1);
    lemma_other_word(n, w2, k1, 1);
    lemma_other_word(n, w3, k1, 0);
    lemma_other_word(m, w3, k2, 0);
    lemma_other_word(n, w4, k1, 0);
    lemma_other_word(m, w4, k2, 0);
    lemma_other_word(n, w5, k1, 0);
    lemma_other_word(m, w5, k2, 0);
    let s1 = all.take(1);
    let s2 = all.take(2);
    let s3 = all.take(3);
    let s4 = all.take(4);
    assert(s1.drop_last() =~= Seq::<Seq<char>>::empty());
    assert(s2.drop_last() =~= s1);
    assert(s3.drop_last() =~= s2);
    assert(s4.drop_last() =~= s3);
    assert(all.drop_last() =~= s4);
    assert(counted(t0, Seq::<Seq<char>>::empty()) == t0);
    assert(counted(t0, s1) == (n, t0.1));
    assert(counted(t0, s2) == (n, m));
    assert(counted(t0, s3) == (n, m));
    assert(counted(t0, s4) == (n, m));
    assert(counted(t0, all) == (n, m));
}

/// What the settings view saves is what it loads again: the kind in its full form, the URL
/// and the key as they were typed, and the model where one was typed.
pub proof fn saved_form_is_loaded(form: Seq<FieldView>, root: JVal)
    requires
        form.len() == 4,
        provider::parsed_kind(form[0].value) is Some,
    ensures
        ({
            let patch = patch_of(form)->Ok_0;
            let again = loaded_form(form, provider::merged(root, patch));
            &&& again[0].value == provider::shown_kind(
                provider::parsed_kind(form[0].value)->Some_0,
            )
            &&& again[1].value == form[1].value
            &&& again[2].value == form[2].value
            &&& form[3].value.len() > 0 ==> again[3].value == form[3].value
        }),
{
    let k = provider::parsed_kind(form[0].value)->Some_0;
    provider::parsed_kinds_are_known(form[0].value);
    let patch = patch_of(form)->Ok_0;
    let auth = provider::merged(root, patch);
    lemma_setting_keys();
    provider::merge_prefers_the_patch(root, patch, "provider"@);
    provider::merge_prefers_the_patch(root, patch, k.vendor);
    provider::merge_prefers_the_patch(root, patch, "default_model"@);
    assert(json::member(patch, "provider"@) == Some(JVal::Str(provider::shown_kind(k))));
    assert(setup::configured_provider(auth) == provider::shown_kind(k));
    text::two_words(k.vendor, k.api.name());
    assert(vendor_word(provider::shown_kind(k)) == k.vendor);
    assert(form[1].value.len() == 0 ==> form[1].value =~= Seq::<char>::empty());
    assert(form[2].value.len() == 0 ==> form[2].value =~= Seq::<char>::empty());
}

proof fn lemma_setting_keys()
    ensures
        "provider"@ != "anthropic"@,
        "provider"@ != "openai"@,
        "provider"@ != "deepseek"@,
        "provider"@ != "default_model"@,
        "default_model"@ != "anthropic"@,
        "default_model"@ != "openai"@,
        "default_model"@ != "deepseek"@,
        "base_url"@ != "api_key"@,
        " "@ == seq![' '],
        text::is_word("anthropic"@),
        text::is_word("openai"@),
        text::is_word("deepseek"@),
        text::is_word("chat"@),
        text::is_word("responses"@),
        text::is_word("messages"@),
{
    reveal_strlit("provider");
    reveal_strlit("default_model");
    reveal_strlit("anthropic");
    reveal_strlit("openai");
    reveal_strlit("deepseek");
    reveal_strlit("chat");
    reveal_strlit("responses");
    reveal_strlit("messages");
    reveal_strlit("base_url");
    reveal_strlit("api_key");
    reveal_strlit(" ");
    assert(" "@ =~= seq![' ']);
    assert("provider"@.len() != "anthropic"@.len());
    assert("provider"@.len() != "openai"@.len());
    assert("provider"@[0] != "deepseek"@[0]);
    assert("provider"@.len() != "default_model"@.len());
    assert("default_model"@.len() != "anthropic"@.len());
    assert("default_model"@.len() != "openai"@.len());
    assert("default_model"@.len() != "deepseek"@.len());
    assert("base_url"@.len() != "api_key"@.len());
}

/// The kinds to choose from, in order.
pub proof fn kinds_are_offered()
    ensures
        kind_name(0) == "anthropic messages"@,
        kind_name(1) == "openai chat"@,
        kind_name(2) == "openai responses"@,
        kind_name(3) == "deepseek chat"@,
        cycled("anthropic messages"@, true) == "openai chat"@,
        cycled("openai chat"@, true) == "openai responses"@,
        cycled("openai responses"@, true) == "deepseek chat"@,
        cycled("deepseek chat"@, true) == "anthropic messages"@,
{
    lemma_kinds_differ();
}

/// A kind that is none of the options counts as the first.
pub proof fn unknown_kinds_count_as_the_first(current: Seq<char>, right: bool)
    requires
        current != "anthropic messages"@ && current != "openai chat"@ && current
            != "openai responses"@ && current != "deepseek chat"@,
    ensures
        cycled(current, right) == cycled("anthropic messages"@, right),
{
    lemma_kinds_differ();
}

/// The commands of the menu, in order, each with what it does.
pub proof fn commands_say_what_they_do()
    ensures
        command_name(0) == "/设置"@ && command_purpose(0) == "配置接口（类型/地址/密钥/模型）"@,
        command_name(1) == "/帮助"@ && command_purpose(1) == "查看帮助"@,
        command_name(2) == "/清空"@ && command_purpose(2) == "清空会话记录"@,
        command_name(3) == "/统计"@ && command_purpose(3) == "显示统计信息"@,
        command_name(4) == "/模型"@ && command_purpose(4) == "显示当前模型"@,
        command_name(5) == "/退出"@ && command_purpose(5) == "退出"@,
{
}

/// The fields of the form, in order.
pub proof fn fields_say_what_they_hold()
    ensures
        field_label(0) == "类型"@ && field_hint(0) == "← → 切换类型"@,
        field_label(1) == "接口地址"@ && field_hint(1)
            == "填到前缀即可，例如 https://api.openai.com/v1；留空用默认"@,
        field_label(2) == "API 密钥"@ && field_hint(2) == "留空则尝试环境变量"@,
        field_label(3) == "模型 ID"@,
        empty_form().len() == 4,
        forall|i: int|
            0 <= i < 4 ==> (#[trigger] empty_form()[i]).value.len() == 0 && empty_form()[i].label
                == field_label(i) && empty_form()[i].hint == field_hint(i),
{
}

/// The first state has greeted the user and done nothing else.
pub proof fn first_state_is_idle(now: Seq<char>)
    ensures
        ({
            let a = first_state(now);
            &&& app_ok(a) && stream_ok(a)
            &&& a.mode == Mode::Chat && !a.busy && !a.connected && a.streaming_item is None
            &&& a.history.len() == 1 && a.history[0].role == "system"@ && a.history[0].time == now
            &&& a.history[0].text == "AgentRust · 输入 / 打开命令菜单，其他内容发送给模型"@
            &&& a.input.len() == 0 && a.input_history.len() == 0 && a.input_history_idx is None
            &&& a.status.len() == 0 && a.usage_str.len() == 0 && a.cmd_menu is None
            &&& a.form_active == 0 && a.scroll_offset == 0 && a.spinner_frame == 0
            &&& a.total_input_tokens == 0 && a.total_output_tokens == 0
        }),
{
}

proof fn lemma_command_words()
    ensures
        "/设置"@ != "/帮助"@,
        "/设置"@ != "/清空"@,
        "/设置"@ != "/统计"@,
        "/设置"@ != "/模型"@,
        "/设置"@ != "/退出"@,
        "/设置"@ != "/quit"@,
        "/帮助"@ != "/清空"@,
        "/帮助"@ != "/统计"@,
        "/帮助"@ != "/模型"@,
        "/帮助"@ != "/退出"@,
        "/帮助"@ != "/quit"@,
        "/清空"@ != "/统计"@,
        "/清空"@ != "/模型"@,
        "/清空"@ != "/退出"@,
        "/清空"@ != "/quit"@,
        "/统计"@ != "/模型"@,
        "/统计"@ != "/退出"@,
        "/统计"@ != "/quit"@,
        "/模型"@ != "/退出"@,
        "/模型"@ != "/quit"@,
        "/退出"@ != "/quit"@,
{
    reveal_strlit("/设置");
    reveal_strlit("/帮助");
    reveal_strlit("/清空");
    reveal_strlit("/统计");
    reveal_strlit("/模型");
    reveal_strlit("/退出");
    reveal_strlit("/quit");
    assert("/设置"@[1] != "/帮助"@[1]);
    assert("/设置"@[1] != "/清空"@[1]);
    assert("/设置"@[1] != "/统计"@[1]);
    assert("/设置"@[1] != "/模型"@[1]);
    assert("/设置"@[1] != "/退出"@[1]);
    assert("/设置"@.len() != "/quit"@.len());
    assert("/帮助"@[1] != "/清空"@[1]);
    assert("/帮助"@[1] != "/统计"@[1]);
    assert("/帮助"@[1] != "/模型"@[1]);
    assert("/帮助"@[1] != "/退出"@[1]);
    assert("/帮助"@.len() != "/quit"@.len());
    assert("/清空"@[1] != "/统计"@[1]);
    assert("/清空"@[1] != "/模型"@[1]);
    assert("/清空"@[1] != "/退出"@[1]);
    assert("/清空"@.len() != "/quit"@.len());
    assert("/统计"@[1] != "/模型"@[1]);
    assert("/统计"@[1] != "/退出"@[1]);
    assert("/统计"@.len() != "/quit"@.len());
    assert("/模型"@[1] != "/退出"@[1]);
    assert("/模型"@.len() != "/quit"@.len());
    assert("/退出"@.len() != "/quit"@.len());
}

/// The frames of the spinner follow one another and repeat after eight.
pub proof fn spinner_goes_round()
    ensures
        spinner_frame_text(0) == "⠋"@ && spinner_frame_text(1) == "⠙"@ && spinner_frame_text(2)
            == "⠹"@ && spinner_frame_text(3) == "⠸"@,
        spinner_frame_text(4) == "⠼"@ && spinner_frame_text(5) == "⠴"@ && spinner_frame_text(6)
            == "⠦"@ && spinner_frame_text(7) == "⠧"@,
{
}

/// A key of the chat view without the command menu: it does what it stands for and nothing
/// else.
pub proof fn chat_keys_do_their_work(
    a: AppView,
    c: char,
    ctrl: bool,
    now: Seq<char>,
    auth: JVal,
)
    requires
        a.mode == Mode::Chat,
        a.cmd_menu is None,
    ensures
        c != '/' && !ctrl ==> on_key(a, Key::Char(c), ctrl, now, auth) == (
            AppView { input: a.input.push(c), ..a },
            OutcomeView::Continue,
        ),
        c != 'c' && c != 'l' ==> on_key(a, Key::Char(c), true, now, auth) == on_key(
            a,
            Key::Char(c),
            false,
            now,
            auth,
        ),
        a.input.len() == 0 && !ctrl ==> on_key(a, Key::Char('/'), ctrl, now, auth) == (
            AppView { input: seq!['/'], cmd_menu: Some(0), ..a },
            OutcomeView::Continue,
        ),
        a.input.len() > 0 && a.input[0] == '/' ==> on_key(a, Key::Char('/'), ctrl, now, auth) == (
            a,
            OutcomeView::Continue,
        ),
        a.input.len() > 0 && a.input[0] != '/' ==> on_key(a, Key::Char('/'), ctrl, now, auth) == (
            AppView { input: a.input.push('/'), ..a },
            OutcomeView::Continue,
        ),
        a.input.len() > 0 ==> on_key(a, Key::Backspace, ctrl, now, auth) == (
            AppView { input: a.input.drop_last(), ..a },
            OutcomeView::Continue,
        ),
        a.input.len() == 0 ==> on_key(a, Key::Backspace, ctrl, now, auth) == (
            a,
            OutcomeView::Continue,
        ),
        on_key(a, Key::Left, ctrl, now, auth) == (a, OutcomeView::Continue),
        on_key(a, Key::Right, ctrl, now, auth) == (a, OutcomeView::Continue),
        on_key(a, Key::Other, ctrl, now, auth) == (a, OutcomeView::Continue),
{
    assert(a.input.len() == 0 ==> a.input.push('/') =~= seq!['/']);
}

/// Erasing takes back what was typed.
pub proof fn erasing_undoes_typing(a: AppView, c: char)
    requires
        c != '/',
        a.cmd_menu is None,
    ensures
        erased(typed(a, c)) == a,
{
    assert(a.input.push(c).drop_last() =~= a.input);
}

/// Control and C quits the chat view, whatever is going on. Control and L leaves a transcript
/// of one note, and everything else as it is.
pub proof fn control_keys_quit_and_clear(a: AppView, now: Seq<char>, auth: JVal)
    requires
        a.mode == Mode::Chat,
    ensures
        on_key(a, Key::Char('c'), true, now, auth) == (a, OutcomeView::Quit),
        on_key(a, Key::Char('l'), true, now, auth) == (
            AppView {
                history: seq![
                    ItemView {
                        role: "system"@,
                        text: "AgentRust · 屏幕已清空"@,
                        time: now,
                    },
                ],
                ..a
            },
            OutcomeView::Continue,
        ),
{
    let none = Seq::<ItemView>::empty();
    let x = ItemView { role: "system"@, text: "AgentRust · 屏幕已清空"@, time: now };
    assert(none.push(x) =~= seq![x]);
}

/// Escape closes the menu where it is open, else it cancels an answer that streams: what was
/// said so far stays. Otherwise it does nothing.
pub proof fn escape_closes_or_cancels(a: AppView, ctrl: bool, now: Seq<char>, auth: JVal)
    requires
        a.mode == Mode::Chat,
    ensures
        a.cmd_menu is Some ==> on_key(a, Key::Esc, ctrl, now, auth) == (
            AppView { cmd_menu: None, input: Seq::empty(), ..a },
            OutcomeView::Continue,
        ),
        a.cmd_menu is None && a.busy ==> on_key(a, Key::Esc, ctrl, now, auth) == (
            AppView {
                busy: false,
                streaming_item: None,
                connected: false,
                status: "已取消"@,
                ..a
            },
            OutcomeView::Continue,
        ),
        a.cmd_menu is None && !a.busy ==> on_key(a, Key::Esc, ctrl, now, auth) == (
            a,
            OutcomeView::Continue,
        ),
{
}

/// The page keys scroll by five lines, one undoing the other, and stop at the ends.
pub proof fn pages_scroll_back_and_forth(a: AppView, ctrl: bool, now: Seq<char>, auth: JVal)
    requires
        a.mode == Mode::Chat,
    ensures
        a.scroll_offset <= 65530 ==> on_key(a, Key::PageUp, ctrl, now, auth).0.scroll_offset
            == a.scroll_offset + 5,
        a.scroll_offset > 65530 ==> on_key(a, Key::PageUp, ctrl, now, auth).0.scroll_offset == 65535,
        a.scroll_offset >= 5 ==> on_key(a, Key::PageDown, ctrl, now, auth).0.scroll_offset
            == a.scroll_offset - 5,
        a.scroll_offset < 5 ==> on_key(a, Key::PageDown, ctrl, now, auth).0.scroll_offset == 0,
        a.scroll_offset <= 65530 ==> on_key(
            on_key(a, Key::PageUp, ctrl, now, auth).0,
            Key::PageDown,
            ctrl,
            now,
            auth,
        ).0 == a,
        on_key(a, Key::PageUp, ctrl, now, auth).1 is Continue,
        on_key(a, Key::PageDown, ctrl, now, auth).1 is Continue,
{
}

/// The arrow keys go through the inputs that were sent: back from the newest to the oldest,
/// where they stay, and forward to an empty input.
pub proof fn arrows_recall_inputs(a: AppView, ctrl: bool, now: Seq<char>, auth: JVal)
    requires
        a.mode == Mode::Chat,
        a.cmd_menu is None,
        app_ok(a),
        a.input_history.len() <= usize::MAX,
    ensures
        ({
            let up = on_key(a, Key::Up, ctrl, now, auth);
            let down = on_key(a, Key::Down, ctrl, now, auth);
            let n = a.input_history.len();
            &&& up.1 is Continue && down.1 is Continue
            &&& n == 0 ==> up.0 == a
            &&& n > 0 && a.input_history_idx is None ==> up.0.input == a.input_history.last()
                && up.0.input_history_idx == Some((n - 1) as usize)
            &&& a.input_history_idx matches Some(i) ==> (i > 0 ==> up.0.input
                == a.input_history[i - 1] && up.0.input_history_idx == Some((i - 1) as usize)) && (i
                == 0 ==> up.0.input == a.input_history[0] && up.0.input_history_idx == Some(i)) && (i
                + 1 < n ==> down.0.input == a.input_history[i + 1] && down.0.input_history_idx
                == Some((i + 1) as usize)) && (i + 1 == n ==> down.0.input.len() == 0
                && down.0.input_history_idx is None)
            &&& a.input_history_idx is None ==> down.0 == a
            &&& up.0.input_history == a.input_history && down.0.input_history == a.input_history
            &&& up.0.history == a.history && down.0.history == a.history
        }),
{
}

/// The commands that completion finds are exactly those that begin with the text, in order.
pub proof fn completion_finds_all(t: Seq<char>, n: nat)
    requires
        n <= 6,
    ensures
        matching(t, n).len() <= n,
        forall|i: int|
            0 <= i < n && text::has_prefix(#[trigger] command_name(i), t) ==> matching(
                t,
                n,
            ).contains(command_name(i)),
        forall|k: int|
            0 <= k < matching(t, n).len() ==> text::has_prefix(#[trigger] matching(t, n)[k], t)
                && exists|i: int| 0 <= i < n && matching(t, n)[k] == #[trigger] command_name(i),
    decreases n,
{
    if n > 0 {
        let m = (n - 1) as nat;
        completion_finds_all(t, m);
        let rest = matching(t, m);
        let all = matching(t, n);
        assert forall|i: int|
            0 <= i < n && text::has_prefix(#[trigger] command_name(i), t) implies all.contains(
            command_name(i),
        ) by {
            if i < m {
                let k = choose|k: int| 0 <= k < rest.len() && rest[k] == command_name(i);
                assert(all[k] == command_name(i));
            } else {
                assert(all.last() == command_name(i));
            }
        }
        assert forall|k: int| 0 <= k < all.len() implies text::has_prefix(#[trigger] all[k], t)
            && exists|i: int| 0 <= i < n && all[k] == #[trigger] command_name(i) by {
            if k < rest.len() {
                assert(all[k] == rest[k]);
                let i = choose|i: int| 0 <= i < m && rest[k] == #[trigger] command_name(i);
                assert(all[k] == command_name(i));
            } else {
                assert(all[k] == command_name(m as int));
            }
        }
    }
}

/// The tab key fills in a command that begins with the input where it is the only one, with a
/// blank behind it; several are listed, and the input stays. Other input is left alone.
pub proof fn tab_completes_commands(a: AppView, ctrl: bool, now: Seq<char>, auth: JVal)
    requires
        a.mode == Mode::Chat,
        a.cmd_menu is None,
    ensures
        ({
            let b = on_key(a, Key::Tab, ctrl, now, auth);
            let t = text::trimmed_start(a.input);
            let found = matching(t, 6);
            &&& b.1 is Continue
            &&& t.len() == 0 || t[0] != '/' ==> b.0 == a
            &&& t.len() > 0 && t[0] == '/' && found.len() == 0 ==> b.0 == a
            &&& t.len() > 0 && t[0] == '/' && found.len() == 1 ==> b.0 == (AppView {
                input: found[0] + " "@,
                ..a
            })
            &&& t.len() > 0 && t[0] == '/' && found.len() > 1 ==> b.0 == (AppView {
                history: a.history.push(
                    ItemView {
                        role: "system"@,
                        text: "可补全: "@ + text::joined(found, ", "@),
                        time: now,
                    },
                ),
                ..a
            })
        }),
{
}

/// A blank input is not sent. Quit quits, a command is carried out and the input emptied, and
/// any other text is sent without the white space round it; while an answer streams it stays
/// where it is.
pub proof fn enter_sends_or_commands(a: AppView, ctrl: bool, now: Seq<char>, auth: JVal)
    requires
        a.mode == Mode::Chat,
        a.cmd_menu is None,
    ensures
        ({
            let b = on_key(a, Key::Enter, ctrl, now, auth);
            let t = text::trimmed(a.input);
            &&& t.len() == 0 ==> b == (a, OutcomeView::Continue)
            &&& t == "/退出"@ || t == "/quit"@ ==> b == (a, OutcomeView::Quit)
            &&& t == "/设置"@ || t == "/帮助"@ || t == "/清空"@ || t == "/统计"@ || t == "/模型"@
                ==> b.1 is Continue && b.0.input.len() == 0
            &&& t.len() > 0 && t != "/退出"@ && t != "/quit"@ && t != "/设置"@ && t != "/帮助"@ && t
                != "/清空"@ && t != "/统计"@ && t != "/模型"@ ==> (if a.busy {
                b == (AppView { status: "正在生成中，请稍候…"@, ..a }, OutcomeView::Continue)
            } else {
                b.1 == OutcomeView::Send(t) && b.0.busy && b.0.connected
            })
        }),
{
    lemma_command_words();
    reveal_strlit("/退出");
    reveal_strlit("/quit");
    reveal_strlit("/设置");
    reveal_strlit("/帮助");
    reveal_strlit("/清空");
    reveal_strlit("/统计");
    reveal_strlit("/模型");
}

/// What is sent stands in the transcript as the user's, with an empty answer behind it that the
/// stream will fill; the input is emptied and can be recalled, and the view is at the bottom.
pub proof fn sending_opens_an_answer(a: AppView, t: Seq<char>, now: Seq<char>)
    requires
        !a.busy,
        a.history.len() + 2 <= usize::MAX,
    ensures
        ({
            let b = sent(a, t, now);
            let n = a.history.len();
            &&& b.history == a.history + seq![
                ItemView { role: "user"@, text: t, time: now },
                ItemView { role: "assistant"@, text: Seq::empty(), time: now },
            ]
            &&& b.streaming_item == Some((n + 1) as usize)
            &&& stream_ok(b)
            &&& b.input.len() == 0
            &&& b.busy && b.connected
            &&& b.status == "生成中…"@
            &&& b.scroll_offset == 0
            &&& b.input_history_idx is None
            &&& text::trimmed(a.input).len() > 0 ==> b.input_history == a.input_history.push(a.input)
            &&& text::trimmed(a.input).len() == 0 ==> b.input_history == a.input_history
            &&& b.form == a.form && b.total_input_tokens == a.total_input_tokens
                && b.total_output_tokens == a.total_output_tokens
        }),
{
    let b = sent(a, t, now);
    assert(b.history =~= a.history + seq![
        ItemView { role: "user"@, text: t, time: now },
        ItemView { role: "assistant"@, text: Seq::empty(), time: now },
    ]);
}

/// The menu's keys: up and down go round, enter and tab pick, escape and backspace close it and
/// empty the input, and other characters are not typed.
pub proof fn menu_keys_do_their_work(
    a: AppView,
    sel: usize,
    c: char,
    now: Seq<char>,
    auth: JVal,
)
    requires
        a.mode == Mode::Chat,
        a.cmd_menu == Some(sel),
        sel < 6,
        a.input == "/"@,
    ensures
        on_key(a, Key::Down, false, now, auth) == (
            AppView {
                cmd_menu: Some(
                    if sel == 5 {
                        0usize
                    } else {
                        (sel + 1) as usize
                    },
                ),
                ..a
            },
            OutcomeView::Continue,
        ),
        on_key(a, Key::Up, false, now, auth) == (
            AppView {
                cmd_menu: Some(
                    if sel == 0 {
                        5usize
                    } else {
                        (sel - 1) as usize
                    },
                ),
                ..a
            },
            OutcomeView::Continue,
        ),
        on_key(a, Key::Enter, false, now, auth) == on_key(a, Key::Tab, false, now, auth),
        on_key(a, Key::Enter, false, now, auth).1 == (if sel == 5 {
            OutcomeView::Quit
        } else {
            OutcomeView::Continue
        }),
        on_key(a, Key::Enter, false, now, auth).0.cmd_menu is None,
        on_key(a, Key::Enter, false, now, auth).0.input.len() == 0,
        on_key(a, Key::Backspace, false, now, auth) == on_key(a, Key::Esc, false, now, auth),
        on_key(a, Key::Backspace, false, now, auth).0.cmd_menu is None,
        on_key(a, Key::Backspace, false, now, auth).0.input.len() == 0,
        c != '/' ==> on_key(a, Key::Char(c), false, now, auth) == (a, OutcomeView::Continue),
        on_key(a, Key::Char('/'), false, now, auth) == (
            AppView { input: seq!['/', '/'], ..a },
            OutcomeView::Continue,
        ),
{
    reveal_strlit("/");
    assert(a.input.push('/') =~= seq!['/', '/']);
}

/// A command picked from the menu does what it does when it is typed.
pub proof fn picking_is_typing(a: AppView, sel: usize, now: Seq<char>, auth: JVal)
    requires
        a.mode == Mode::Chat,
        a.cmd_menu is None,
        a.input.len() == 0,
        sel < 5,
    ensures
        ({
            let typed_in = AppView { input: command_name(sel as int), ..a };
            let menu = AppView { input: "/"@, cmd_menu: Some(sel), ..a };
            on_key(menu, Key::Enter, false, now, auth) == on_key(
                typed_in,
                Key::Enter,
                false,
                now,
                auth,
            )
        }),
{
    lemma_command_words();
    lemma_trimmed_command(sel as int);
    let typed_in = AppView { input: command_name(sel as int), ..a };
    let menu = AppView { input: "/"@, cmd_menu: Some(sel), ..a };
    assert(a.input =~= Seq::<char>::empty());
    let base = AppView { cmd_menu: None, input: Seq::empty(), ..menu };
    assert(base == a);
    let x = commanded(a, command_name(sel as int), now, auth);
    let y = commanded(typed_in, command_name(sel as int), now, auth);
    assert(stats_text(a) == stats_text(typed_in));
    assert(model_text(a) == model_text(typed_in));
    assert(AppView { input: Seq::empty(), ..y } == x);
}

proof fn lemma_trimmed_command(i: int)
    requires
        0 <= i < 6,
    ensures
        text::trimmed(command_name(i)) == command_name(i),
        command_name(i).len() > 0,
{
    reveal_strlit("/退出");
    reveal_strlit("/设置");
    reveal_strlit("/帮助");
    reveal_strlit("/清空");
    reveal_strlit("/统计");
    reveal_strlit("/模型");
    let none = Seq::<char>::empty();
    let t = command_name(i);
    text::whitespace_is_what_separates(t[0]);
    text::whitespace_is_what_separates(t.last());
    text::trimming_takes_the_middle(none, t, none);
    assert(none + t + none =~= t);
}

/// The settings command fills the form and shows it; help, statistics and model each add a note;
/// clearing leaves one note and no counts. Anything else changes nothing.
pub proof fn commands_do_what_they_say(a: AppView, cmd: Seq<char>, now: Seq<char>, auth: JVal)
    ensures
        commanded(a, "/设置"@, now, auth) == (AppView {
            form: loaded_form(a.form, auth),
            mode: Mode::Settings,
            status: Seq::empty(),
            ..a
        }),
        commanded(a, "/帮助"@, now, auth) == (AppView {
            history: a.history.push(
                ItemView {
                    role: "system"@,
                    text: "快捷键：\n  ↑/↓    翻阅输入历史\n  Tab    命令补全\n  PgUp/Dn 滚动聊天记录\n  Esc    取消生成\n  Ctrl+C  退出\n  Ctrl+L  清屏\n\n命令：\n  /设置    配置\n  /清空    清空记录\n  /统计    统计信息\n  /模型    当前模型\n  /帮助    帮助\n  /退出    退出"@,
                    time: now,
                },
            ),
            ..a
        }),
        commanded(a, "/清空"@, now, auth) == (AppView {
            history: seq![
                ItemView { role: "system"@, text: "AgentRust · 记录已清空"@, time: now },
            ],
            total_input_tokens: 0,
            total_output_tokens: 0,
            ..a
        }),
        commanded(a, "/统计"@, now, auth) == (AppView {
            history: a.history.push(
                ItemView { role: "system"@, text: stats_text(a), time: now },
            ),
            ..a
        }),
        commanded(a, "/模型"@, now, auth) == (AppView {
            history: a.history.push(
                ItemView { role: "system"@, text: model_text(a), time: now },
            ),
            ..a
        }),
        cmd != "/设置"@ && cmd != "/帮助"@ && cmd != "/清空"@ && cmd != "/统计"@ && cmd != "/模型"@
            ==> commanded(a, cmd, now, auth) == a,
{
    lemma_command_words();
    let none = Seq::<ItemView>::empty();
    let x = ItemView { role: "system"@, text: "AgentRust · 记录已清空"@, time: now };
    assert(none.push(x) =~= seq![x]);
}

/// The statistics count the items of the transcript, all and by role, and tell the tokens; the
/// model command tells the provider and the model of the form.
pub proof fn statistics_count_the_transcript(
    a: AppView,
    s: Seq<ItemView>,
    item: ItemView,
    role: Seq<char>,
)
    requires
        a.form.len() == 4,
    ensures
        role_count(Seq::empty(), role) == 0,
        item.role == role ==> role_count(s.push(item), role) == role_count(s, role) + 1,
        item.role != role ==> role_count(s.push(item), role) == role_count(s, role),
        stats_text(a) == "消息数: "@ + text::decimal(a.history.len()) + " (用户: "@ + text::decimal(
            role_count(a.history, "user"@),
        ) + ", 助手: "@ + text::decimal(role_count(a.history, "assistant"@)) + ")\nToken: 输入 "@
            + text::decimal(a.total_input_tokens as nat) + " / 输出 "@ + text::decimal(
            a.total_output_tokens as nat,
        ),
        a.form[3].value.len() > 0 ==> model_text(a) == "服务商: "@ + a.form[0].value + "\n模型: "@
            + a.form[3].value,
        a.form[3].value.len() == 0 ==> model_text(a) == "服务商: "@ + a.form[0].value + "\n模型: "@
            + "（未设置）"@,
{
    assert(s.push(item).drop_last() =~= s);
}

/// The keys of the settings view: the arrows move between the fields, left and right turn the
/// kind over, characters are typed into the other fields and erased again, escape leaves
/// everything as it was.
pub proof fn settings_keys_do_their_work(
    a: AppView,
    c: char,
    ctrl: bool,
    now: Seq<char>,
    auth: JVal,
)
    requires
        a.mode == Mode::Settings,
        app_ok(a),
    ensures
        ({
            let i = a.form_active;
            let up = on_key(a, Key::Up, ctrl, now, auth);
            let down = on_key(a, Key::Down, ctrl, now, auth);
            let tab = on_key(a, Key::Tab, ctrl, now, auth);
            &&& up == (AppView { form_active: up.0.form_active, ..a }, OutcomeView::Continue)
            &&& down == (AppView { form_active: down.0.form_active, ..a }, OutcomeView::Continue)
            &&& tab == (AppView { form_active: tab.0.form_active, ..a }, OutcomeView::Continue)
            &&& i > 0 ==> up.0.form_active == i - 1
            &&& i == 0 ==> up.0.form_active == 0
            &&& i < 3 ==> down.0.form_active == i + 1 && tab.0.form_active == i + 1
            &&& i == 3 ==> down.0.form_active == 3 && tab.0.form_active == 0
        }),
        on_key(a, Key::Esc, ctrl, now, auth) == (
            AppView { mode: Mode::Chat, status: "已放弃修改"@, ..a },
            OutcomeView::Continue,
        ),
        a.form_active == 0 ==> on_key(a, Key::Char(c), ctrl, now, auth) == (
            a,
            OutcomeView::Continue,
        ) && on_key(a, Key::Backspace, ctrl, now, auth) == (a, OutcomeView::Continue),
        a.form_active == 0 ==> on_key(a, Key::Right, ctrl, now, auth).0.form[0].value == cycled(
            a.form[0].value,
            true,
        ) && on_key(a, Key::Left, ctrl, now, auth).0.form[0].value == cycled(
            a.form[0].value,
            false,
        ),
        a.form_active != 0 ==> on_key(a, Key::Right, ctrl, now, auth) == (a, OutcomeView::Continue)
            && on_key(a, Key::Left, ctrl, now, auth) == (a, OutcomeView::Continue),
        a.form_active != 0 ==> on_key(a, Key::Char(c), ctrl, now, auth).0.form[a.form_active as int]
            == (FieldView {
            value: a.form[a.form_active as int].value.push(c),
            ..a.form[a.form_active as int]
        }),
        forall|j: int|
            0 <= j < 4 && j != a.form_active ==> #[trigger] on_key(
                a,
                Key::Char(c),
                ctrl,
                now,
                auth,
            ).0.form[j] == a.form[j],
        a.form_active != 0 ==> on_key(
            on_key(a, Key::Char(c), ctrl, now, auth).0,
            Key::Backspace,
            ctrl,
            now,
            auth,
        ).0 == a,
        a.form_active != 0 && a.form[a.form_active as int].value.len() == 0 ==> on_key(
            a,
            Key::Backspace,
            ctrl,
            now,
            auth,
        ) == (a, OutcomeView::Continue),
        on_key(a, Key::PageUp, ctrl, now, auth) == (a, OutcomeView::Continue),
        on_key(a, Key::Other, ctrl, now, auth) == (a, OutcomeView::Continue),
{
    let i = a.form_active as int;
    if i != 0 {
        let b = on_key(a, Key::Char(c), ctrl, now, auth).0;
        assert(b.form[i].value.drop_last() =~= a.form[i].value);
        assert(with_value(b.form, i, a.form[i].value) =~= a.form);
    }
}

/// Enter in the settings view saves what the form stands for; a form that stands for nothing is
/// not saved, and the status says which kind is unknown.
pub proof fn enter_saves_the_form(a: AppView, ctrl: bool, now: Seq<char>, auth: JVal)
    requires
        a.mode == Mode::Settings,
        app_ok(a),
    ensures
        provider::parsed_kind(a.form[0].value) is None ==> on_key(a, Key::Enter, ctrl, now, auth) == (
            AppView { status: "未知类型: '"@ + a.form[0].value + "'"@, ..a },
            OutcomeView::Continue,
        ),
        provider::parsed_kind(a.form[0].value) is Some ==> on_key(
            a,
            Key::Enter,
            ctrl,
            now,
            auth,
        ).0 == a && on_key(a, Key::Enter, ctrl, now, auth).1 is Save,
{
}

/// What is saved holds the kind, the vendor's URL and key where they are given, the model where
/// it is given, and nothing else.
pub proof fn saved_settings_hold_the_form(form: Seq<FieldView>, k: KindView, other: Seq<char>)
    requires
        form.len() == 4,
        provider::parsed_kind(form[0].value) == Some(k),
    ensures
        patch_of(form) is Ok,
        ({
            let patch = patch_of(form)->Ok_0;
            &&& json::member(patch, "provider"@) == Some(JVal::Str(provider::shown_kind(k)))
            &&& provider::settings_entry(patch, k.vendor, "base_url"@) == given(form[1].value)
            &&& provider::settings_entry(patch, k.vendor, "api_key"@) == given(form[2].value)
            &&& json::opt_str_value(json::member(patch, "default_model"@)) == given(form[3].value)
            &&& form[3].value.len() == 0 ==> json::member(patch, "default_model"@) is None
            &&& other != "provider"@ && other != "default_model"@ && other != k.vendor
                ==> json::member(patch, other) is None
        }),
{
    provider::parsed_kinds_are_known(form[0].value);
    lemma_setting_keys();
}

/// What a field gives: its text, or nothing where it is empty.
pub open spec fn given(t: Seq<char>) -> Option<Seq<char>> {
    if t.len() > 0 {
        Some(t)
    } else {
        None
    }
}

/// The form shows what the settings hold: the provider, the URL and the key of the vendor that
/// it names, and the model; labels and hints stay.
pub proof fn form_shows_the_settings(
    form: Seq<FieldView>,
    m: Map<Seq<char>, JVal>,
    section: Map<Seq<char>, JVal>,
    vendor: Seq<char>,
    api: Seq<char>,
    url: Seq<char>,
    key: Seq<char>,
    id: Seq<char>,
)
    requires
        form.len() == 4,
        text::is_word(vendor),
        text::is_word(api),
        vendor != "provider"@,
        vendor != "default_model"@,
    ensures
        ({
            let auth = JVal::Object(
                m.insert("provider"@, JVal::Str(vendor + " "@ + api)).insert(
                    "default_model"@,
                    JVal::Str(id),
                ).insert(
                    vendor,
                    JVal::Object(
                        section.insert("base_url"@, JVal::Str(url)).insert(
                            "api_key"@,
                            JVal::Str(key),
                        ),
                    ),
                ),
            );
            let shown = loaded_form(form, auth);
            &&& shown.len() == 4
            &&& shown[0].value == vendor + " "@ + api
            &&& shown[1].value == url
            &&& shown[2].value == key
            &&& shown[3].value == id
            &&& forall|i: int|
                0 <= i < 4 ==> (#[trigger] shown[i]).label == form[i].label && shown[i].hint
                    == form[i].hint
        }),
        ({
            let shown = loaded_form(form, JVal::Object(Map::empty()));
            &&& shown[0].value == "openai chat"@
            &&& shown[1].value.len() == 0
            &&& shown[2].value.len() == 0
            &&& shown[3].value.len() == 0
        }),
{
    lemma_setting_keys();
    text::two_words(vendor, api);
}

/// A form that was written is left and the status says so; one that was not stays, and the
/// status says why.
pub proof fn saving_is_told(a: AppView, m: String)
    ensures
        after_save(a, SaveResult::Written) == (AppView {
            mode: Mode::Chat,
            status: "设置已保存"@,
            ..a
        }),
        after_save(a, SaveResult::NoHome) == (AppView {
            status: "没有 HOME/USERPROFILE 目录，无法写入 auth.json"@,
            ..a
        }),
        after_save(a, SaveResult::Error(m)) == (AppView { status: "写入失败："@ + m@, ..a }),
{
}

/// An answer that ends is no longer busy: its item gets the time of its end, and the status
/// shows the usage where one was told, else the end.
pub proof fn answers_end(a: AppView, i: usize, why: Seq<char>, now: Seq<char>)
    requires
        a.streaming_item == Some(i),
        i < a.history.len(),
    ensures
        ({
            let b = on_msg(a, StreamMsgView::Done("结束："@ + why), now);
            &&& !b.busy && b.streaming_item is None
            &&& b.history.len() == a.history.len()
            &&& b.history[i as int] == (ItemView { time: now, ..a.history[i as int] })
            &&& forall|j: int|
                0 <= j < a.history.len() && j != i ==> #[trigger] b.history[j] == a.history[j]
            &&& a.usage_str.len() > 0 ==> b.status == a.usage_str
            &&& a.usage_str.len() == 0 ==> b.status == "结束："@ + why
            &&& b.usage_str.len() == 0
            &&& b.connected == a.connected
            &&& b.total_input_tokens == a.total_input_tokens && b.total_output_tokens
                == a.total_output_tokens
        }),
{
    reveal_strlit("结束：");
    reveal_strlit("用量：");
    let s = "结束："@ + why;
    if text::after_prefix(s, "用量："@) is Some {
        assert(s.take(3)[0] == '结');
        assert(text::has_prefix(s, "用量："@));
    }
}

/// A failure is noted in the transcript and the status and ends the answer; what was said stays.
pub proof fn failures_are_shown(a: AppView, e: Seq<char>, now: Seq<char>)
    ensures
        ({
            let b = on_msg(a, StreamMsgView::Failed(e), now);
            &&& b.history == a.history.push(
                ItemView { role: "system"@, text: "错误："@ + e, time: now },
            )
            &&& b.status == "错误："@ + e
            &&& !b.busy && !b.connected && b.streaming_item is None
            &&& b.input == a.input && b.form == a.form && b.mode == a.mode
        }),
{
}

/// Messages are taken in order, one after the other. Without a streamed item a delta is dropped.
pub proof fn messages_are_taken_in_order(
    a: AppView,
    s: Seq<StreamMsgView>,
    m: StreamMsgView,
    d: Seq<char>,
    now: Seq<char>,
)
    ensures
        on_msgs(a, Seq::empty(), now) == a,
        on_msgs(a, s.push(m), now) == on_msg(on_msgs(a, s, now), m, now),
        a.streaming_item is None ==> on_msg(a, StreamMsgView::Delta(d), now) == a,
{
    assert(s.push(m).drop_last() =~= s);
}

/// Before a frame the messages are taken. After a failure no frame is drawn. A stream that is
/// over is let go, and the spinner turns while the answer streams and its time is up.
pub proof fn frames_begin_with_the_messages(
    a: AppView,
    s: Seq<StreamMsgView>,
    now: Seq<char>,
    due: bool,
)
    ensures
        ({
            let r = frame_begun(a, s, now, due);
            let b = on_msgs(a, s, now);
            &&& r.1 == !any_failed(s)
            &&& r.0.history == b.history && r.0.status == b.status && r.0.busy == b.busy
                && r.0.streaming_item == b.streaming_item && r.0.input == b.input
            &&& any_failed(s) ==> !r.0.connected && r.0.spinner_frame == b.spinner_frame
            &&& !any_failed(s) ==> (r.0.connected <==> b.connected && (b.busy
                || b.streaming_item is Some))
            &&& !any_failed(s) && b.busy && due && b.spinner_frame < usize::MAX
                ==> r.0.spinner_frame == b.spinner_frame + 1
            &&& !any_failed(s) && b.busy && due && b.spinner_frame == usize::MAX
                ==> r.0.spinner_frame == 0
            &&& !b.busy || !due ==> r.0.spinner_frame == b.spinner_frame
        }),
        any_failed(s) <==> exists|i: int| 0 <= i < s.len() && #[trigger] s[i] is Failed,
{
}

/// Counts are added from the words that carry them; other words, and words whose number cannot
/// be read, add nothing.
pub proof fn counts_are_added(
    t: (u64, u64),
    words: Seq<Seq<char>>,
    n: u64,
    w: Seq<char>,
)
    ensures
        counted(t, Seq::empty()) == t,
        counted(t, words.push("输入="@ + text::decimal(n as nat))) == (
            model::wrapped_sum(counted(t, words).0, n),
            counted(t, words).1,
        ),
        counted(t, words.push("输出="@ + text::decimal(n as nat))) == (
            counted(t, words).0,
            model::wrapped_sum(counted(t, words).1, n),
        ),
        !text::has_prefix(w, "输入="@) && !text::has_prefix(w, "输出="@) ==> counted(
            t,
            words.push(w),
        ) == counted(t, words),
{
    reveal_strlit("输入=");
    reveal_strlit("输出=");
    let d = text::decimal(n as nat);
    let w1 = "输入="@ + d;
    let w2 = "输出="@ + d;
    text::decimal_reads_back(n as nat);
    text::prefixes_and_suffixes("输入="@, d, w2);
    text::prefixes_and_suffixes("输出="@, d, w1);
    assert(w1[1] == '入' && w2[1] == '出');
    if text::after_prefix(w1, "输出="@) is Some {
        let rest = text::after_prefix(w1, "输出="@)->Some_0;
        assert(("输出="@ + rest)[1] == '出');
    }
    if text::after_prefix(w2, "输入="@) is Some {
        let rest = text::after_prefix(w2, "输入="@)->Some_0;
        assert(("输入="@ + rest)[1] == '入');
    }
    assert(words.push(w1).drop_last() =~= words);
    assert(words.push(w2).drop_last() =~= words);
    assert(words.push(w).drop_last() =~= words);
}

/// Items of an answer become messages: text a delta, usage and the end an end message, an error
/// a failure with its message; thinking, tool calls and the rest are not shown.
pub proof fn items_become_messages(
    item: Result<StreamEventView, AiErrorView>,
    d: Seq<char>,
    u: Usage,
    e: AiErrorView,
)
    ensures
        item_msg(Ok(StreamEventView::TextDelta { delta: d })) == Some(StreamMsgView::Delta(d)),
        item_msg(Ok(StreamEventView::Usage { usage: u })) matches Some(StreamMsgView::Done(t)) && t
            == "用量：输入="@ + text::decimal(u.input as nat) + " 输出="@ + text::decimal(
            u.output as nat,
        ) + " 缓存读="@ + text::decimal(u.cache_read as nat) + " 缓存写="@ + text::decimal(
            u.cache_write as nat,
        ) + " 总计="@ + text::decimal(u.total as nat),
        item_msg(Ok(StreamEventView::Done { stop_reason: StopReason::Stop })) == Some(
            StreamMsgView::Done("结束："@ + "Stop"@),
        ),
        item_msg(Ok(StreamEventView::Done { stop_reason: StopReason::Length })) == Some(
            StreamMsgView::Done("结束："@ + "Length"@),
        ),
        item_msg(Ok(StreamEventView::Done { stop_reason: StopReason::ToolUse })) == Some(
            StreamMsgView::Done("结束："@ + "ToolUse"@),
        ),
        item_msg(Ok(StreamEventView::Done { stop_reason: StopReason::Error })) == Some(
            StreamMsgView::Done("结束："@ + "Error"@),
        ),
        item_msg(Ok(StreamEventView::Done { stop_reason: StopReason::Aborted })) == Some(
            StreamMsgView::Done("结束："@ + "Aborted"@),
        ),
        item_msg(Err(e)) == Some(StreamMsgView::Failed(error::ai_message(e))),
        item is Ok && !(item->Ok_0 is TextDelta) && !(item->Ok_0 is Usage) && !(item->Ok_0 is Done)
            ==> item_msg(item) is None,
{
}

/// A text is sent as a conversation of one message of the user, to the configured model, without
/// a system prompt, thinking or tools.
pub proof fn chats_send_the_text(model: ModelView, t: Seq<char>)
    ensures
        ({
            let r = chat_request(model, t);
            &&& r.model == model && r.system.len() == 0 && r.tools.len() == 0
            &&& r.thinking == ThinkingLevel::Off && r.max_tokens == 4096
            &&& r.messages.len() == 1 && r.messages[0].role == "user"@
            &&& r.messages[0].parts == seq![PartView::Text { text: t }]
        }),
{
}

/// The settings decide what is asked: their provider with its key and URL, and their model. What
/// they leave open is an error that says so.
pub proof fn settings_decide_what_is_asked(
    m: Map<Seq<char>, JVal>,
    k: KindView,
    id: Seq<char>,
    creds: Map<Seq<char>, Seq<char>>,
    t: Seq<char>,
    auth: JVal,
)
    requires
        provider::known_kind(k),
    ensures
        ({
            let auth = JVal::Object(
                m.insert("default_model"@, JVal::Str(id)).insert(
                    "provider"@,
                    JVal::Str(provider::shown_kind(k)),
                ),
            );
            let model = ModelView {
                provider: k.vendor,
                id,
                context_window: 200_000,
                max_tokens: 4096,
            };
            match provider::provider_http(chat_provider(k, auth, creds), chat_request(model, t)) {
                Ok(h) => planned(auth, creds, t) == Ok::<HttpRequestView, Seq<char>>(h),
                Err(e) => planned(auth, creds, t) == Err::<HttpRequestView, Seq<char>>(
                    error::ai_message(e),
                ),
            }
        }),
        provider::parsed_kind(setup::configured_provider(auth)) is None ==> planned(auth, creds, t)
            == Err::<HttpRequestView, Seq<char>>(
            "没有配置有效的 provider；请执行 /settings 设置"@,
        ),
{
    lemma_setting_keys();
    provider::display_reads_back(k);
}

/// The provider that is asked is the one that a session without arguments would use.
pub proof fn chats_use_the_configured_provider(
    k: KindView,
    auth: JVal,
    creds: Map<Seq<char>, Seq<char>>,
)
    requires
        provider::known_kind(k),
        text::without_trailing(provider::resolved_url(k, None, auth), '/').len() > 0,
    ensures
        chat_provider(k, auth, creds) == setup::session_provider(k, None, None, auth, creds),
{
    let url = provider::resolved_url(k, None, auth);
    provider::joined_url_is_stable(k, url);
    reveal_strlit("/chat/completions");
    reveal_strlit("/responses");
    reveal_strlit("/messages");
    assert(provider::joined_url(k, url).len() > 0);
}

/// An answer in one piece tells the same counts, in the same words, as one that was streamed.
pub proof fn short_usage_begins_the_long(u: Usage)
    ensures
        text::has_prefix(usage_line(u), short_usage_line(u)),
        short_usage_line(u) == "用量：输入="@ + text::decimal(u.input as nat) + " 输出="@
            + text::decimal(u.output as nat),
{
    let a = usage_line(u);
    let b = short_usage_line(u);
    assert(a.take(b.len() as int) =~= b);
}

/// Marks point into the lists they belong to, and no key press takes a state out of its shape.
pub proof fn keys_keep_the_shape(a: AppView, key: Key, ctrl: bool, now: Seq<char>, auth: JVal)
    requires
        app_ok(a),
        a.input_history.len() <= usize::MAX,
    ensures
        a.form.len() == 4 && a.form_active < 4,
        a.cmd_menu matches Some(i) ==> i < 6,
        a.input_history_idx matches Some(i) ==> i < a.input_history.len(),
        app_ok(on_key(a, key, ctrl, now, auth).0),
{
}

} // verus!
