//! What the front end shows: lines of toned text, titles, the cursor and the command menu.
//! The terminal library turns tones into colours and lays the areas out.

use crate::text;
use crate::tui;
use crate::tui::{
    AppView, ChatApp, ChatItem, FieldView, FormField, ItemView, COMMAND_COUNT, FIELD_COUNT,
};
use vstd::prelude::*;
use vstd::string::*;

verus! {

/// How a piece of text is shown.
#[derive(Debug, Clone, Copy, PartialEq, Eq, Structural)]
pub enum Tone {
    Plain,
    /// names in front of messages: bold, cyan, light green, grey, white
    User,
    Assistant,
    System,
    Other,
    /// grey
    Faint,
    /// yellow
    Code,
    /// white
    Value,
    /// cyan
    Label,
    /// black on cyan, bold
    Picked,
    /// black on cyan
    PickedHint,
    /// yellow
    Warning,
}

/// A piece of text with its tone.
#[derive(Debug)]
pub struct Piece {
    pub text: String,
    pub tone: Tone,
}

/// What a `Piece` denotes.
pub struct PieceView {
    pub text: Seq<char>,
    pub tone: Tone,
}

impl View for Piece {
    type V = PieceView;

    open spec fn view(&self) -> PieceView {
        PieceView { text: self.text@, tone: self.tone }
    }
}

/// A line: its pieces from left to right.
#[derive(Debug)]
pub struct Row {
    pub pieces: Vec<Piece>,
}

impl View for Row {
    type V = Seq<PieceView>;

    open spec fn view(&self) -> Seq<PieceView> {
        self.pieces@.map_values(|p: Piece| p@)
    }
}

/// The views of a list of lines.
pub open spec fn rows(s: Seq<Row>) -> Seq<Seq<PieceView>> {
    s.map_values(|r: Row| r@)
}

/// A part of the screen.
#[derive(Debug, Clone, Copy, PartialEq, Eq, Structural)]
pub struct Area {
    pub x: u16,
    pub y: u16,
    pub width: u16,
    pub height: u16,
}

// ---- transcript ---------------------------------------------------------------------------------

/// The tone of a role's name.
pub open spec fn role_tone(role: Seq<char>) -> Tone {
    if role == "user"@ {
        Tone::User
    } else if role == "assistant"@ {
        Tone::Assistant
    } else if role == "system"@ {
        Tone::System
    } else {
        Tone::Other
    }
}

/// A role's name as it is shown.
pub open spec fn role_label(role: Seq<char>) -> Seq<char> {
    if role == "user"@ {
        "你"@
    } else if role == "assistant"@ {
        "助手"@
    } else if role == "system"@ {
        "系统"@
    } else {
        role
    }
}

/// The name in front of a message.
pub open spec fn name_piece(role: Seq<char>) -> PieceView {
    PieceView { text: "  "@ + role_label(role) + "  "@, tone: role_tone(role) }
}

/// A line of a message: fences of code blocks and inline code stand out.
pub open spec fn text_piece(t: Seq<char>) -> PieceView {
    PieceView {
        text: t,
        tone: if text::has_prefix(t, "```"@) {
            Tone::Faint
        } else if text::has_prefix(t, "`"@) && text::has_suffix(t, "`"@) {
            Tone::Code
        } else {
            Tone::Plain
        },
    }
}

/// A line of a message at a place: the first follows the name and the time, the others are
/// indented.
pub open spec fn text_row(item: ItemView, i: int, t: Seq<char>) -> Seq<PieceView> {
    if i == 0 {
        seq![
            name_piece(item.role),
            PieceView { text: "["@ + item.time + "] "@, tone: Tone::Faint },
            text_piece(t),
        ]
    } else {
        seq![PieceView { text: "        "@, tone: Tone::Plain }, text_piece(t)]
    }
}

/// The lines of a message, followed by a blank one.
pub open spec fn item_rows(item: ItemView) -> Seq<Seq<PieceView>> {
    let lines = text::text_lines(item.text);
    let body = if lines.len() == 0 {
        seq![seq![name_piece(item.role)]]
    } else {
        Seq::new(lines.len(), |i: int| text_row(item, i, lines[i]))
    };
    body.push(Seq::empty())
}

/// The lines of a transcript.
pub open spec fn history_rows(s: Seq<ItemView>) -> Seq<Seq<PieceView>>
    decreases s.len(),
{
    if s.len() == 0 {
        Seq::empty()
    } else {
        history_rows(s.drop_last()) + item_rows(s.last())
    }
}

fn piece(t: &str, tone: Tone) -> (r: Piece)
    ensures
        r@ == (PieceView { text: t@, tone }),
{
    Piece { text: t.to_owned(), tone }
}

fn name_of(role: &str) -> (r: Piece)
    ensures
        r@ == name_piece(role@),
{
    let (label, tone) = if text::str_eq(role, "user") {
        ("你", Tone::User)
    } else if text::str_eq(role, "assistant") {
        ("助手", Tone::Assistant)
    } else if text::str_eq(role, "system") {
        ("系统", Tone::System)
    } else {
        (role, Tone::Other)
    };
    let mut t = text::cat("  ", label);
    t.append("  ");
    Piece { text: t, tone }
}

fn text_of(t: &str) -> (r: Piece)
    ensures
        r@ == text_piece(t@),
{
    let tone = if text::starts_with(t, "```") {
        Tone::Faint
    } else if text::starts_with(t, "`") && text::ends_with(t, "`") {
        Tone::Code
    } else {
        Tone::Plain
    };
    piece(t, tone)
}

fn row_of(item: &ChatItem, i: usize, t: &str) -> (r: Row)
    ensures
        r@ == text_row(item@, i as int, t@),
{
    let mut pieces: Vec<Piece> = Vec::new();
    if i == 0 {
        pieces.push(name_of(item.role.as_str()));
        let mut time = text::cat("[", item.time.as_str());
        time.append("] ");
        pieces.push(Piece { text: time, tone: Tone::Faint });
    } else {
        pieces.push(piece("        ", Tone::Plain));
    }
    pieces.push(text_of(t));
    let r = Row { pieces };
    assert(r@ =~= text_row(item@, i as int, t@));
    r
}

fn push_item(out: &mut Vec<Row>, item: &ChatItem)
    ensures
        rows(final(out)@) == rows(old(out)@) + item_rows(item@),
{
    let lines = text::lines(item.text.as_str());
    let ghost start = rows(out@);
    let ghost n = out@.len();
    let ghost want = item_rows(item@);
    let ghost texts = text::text_lines(item@.text);
    assert(texts.len() == lines@.len());
    if lines.len() == 0 {
        let mut pieces: Vec<Piece> = Vec::new();
        pieces.push(name_of(item.role.as_str()));
        let r = Row { pieces };
        assert(r@ =~= seq![name_piece(item@.role)]);
        let ghost before = out@;
        out.push(r);
        assert(rows(out@) =~= rows(before).push(r@));
    } else {
        let mut i: usize = 0;
        while i < lines.len()
            invariant
                i <= lines@.len(),
                start.len() == n,
                out@.len() == n + i,
                texts == text::text_lines(item@.text),
                texts == text::strs(lines@),
                forall|k: int| 0 <= k < n ==> (#[trigger] out@[k])@ == start[k],
                forall|k: int|
                    n <= k < n + i ==> (#[trigger] out@[k])@ == text_row(
                        item@,
                        k - n,
                        texts[k - n],
                    ),
            decreases lines@.len() - i,
        {
            assert(texts[i as int] == lines@[i as int]@);
            out.push(row_of(item, i, lines[i].as_str()));
            i += 1;
        }
    }
    let blank = Row { pieces: Vec::new() };
    assert(blank@ =~= Seq::<PieceView>::empty());
    let ghost before = out@;
    out.push(blank);
    assert(rows(out@) =~= rows(before).push(blank@));
    assert(rows(out@) =~= start + want);
}

// ---- the chat view ------------------------------------------------------------------------------

/// The title of the transcript; a spinner turns in it while an answer streams.
pub open spec fn chat_title(a: AppView) -> Seq<char> {
    if a.busy {
        " AgentRust "@ + tui::spinner_frame_text(a.spinner_frame as int % 8) + " "@
    } else {
        " AgentRust "@
    }
}

/// The title of the input.
pub open spec fn input_title(a: AppView) -> Seq<char> {
    if a.busy {
        " 输入（生成中…按 Esc 取消） "@
    } else {
        " 输入（/ 打开菜单 · Tab 补全 · ↑↓ 历史） "@
    }
}

/// The sum of two coordinates, which wraps around at 2^16.
pub open spec fn wrapped(a: int, b: int) -> int {
    (a + b) % 0x1_0000
}

/// Where an area ends on the right.
pub open spec fn right_of(area: Area) -> int {
    if area.x + area.width > 65535 {
        65535
    } else {
        area.x + area.width
    }
}

/// Where the cursor stands: behind the input, at one column a byte, within the border.
/// Coordinates wrap around at 2^16.
pub open spec fn cursor_of(area: Area, input: Seq<char>) -> (int, int) {
    let x = wrapped(wrapped(area.x as int, 1), (text::byte_count(input) % 0x1_0000) as int);
    let last = wrapped(right_of(area), 0xffff);
    (
        if x < last {
            x
        } else {
            last
        },
        wrapped(area.y as int, 1),
    )
}

/// The area of the command menu: above the input, within its border.
pub open spec fn menu_area(area: Area) -> Area {
    let inner = if area.width < 2 {
        0
    } else {
        area.width - 2
    };
    Area {
        x: wrapped(area.x as int, 1) as u16,
        y: if area.y < 8 {
            0
        } else {
            (area.y - 8) as u16
        },
        width: if inner < 60 {
            inner as u16
        } else {
            60
        },
        height: 8,
    }
}

/// A line of the command menu.
pub open spec fn menu_row(i: int, picked: bool) -> Seq<PieceView> {
    if picked {
        seq![
            PieceView { text: "▸ "@ + tui::command_name(i), tone: Tone::Picked },
            PieceView { text: "  "@ + tui::command_purpose(i), tone: Tone::PickedHint },
        ]
    } else {
        seq![
            PieceView { text: "  "@ + tui::command_name(i), tone: Tone::Value },
            PieceView { text: "  "@ + tui::command_purpose(i), tone: Tone::Faint },
        ]
    }
}

/// The lines of the command menu.
pub open spec fn menu_rows(selected: usize) -> Seq<Seq<PieceView>> {
    Seq::new(6, |i: int| menu_row(i, i == selected))
}

/// The token counts in the status bar; nothing before any are known. Whether any are known is
/// read off their sum, which wraps around at 2^64.
pub open spec fn token_text(a: AppView) -> Seq<char> {
    if crate::model::wrapped_sum(a.total_input_tokens, a.total_output_tokens) > 0 {
        "tok: ↓"@ + text::decimal(a.total_input_tokens as nat) + " ↑"@ + text::decimal(
            a.total_output_tokens as nat,
        )
    } else {
        Seq::empty()
    }
}

/// The status bar.
pub open spec fn status_text(a: AppView) -> Seq<char> {
    a.form[0].value + " · "@ + tui::shown_model(a) + " · msgs:"@ + text::decimal(a.history.len())
        + " "@ + token_text(a) + "  │  "@ + a.status
}

/// The first line of the transcript that is shown in an area of `height` lines: at offset 0
/// the last line is at the bottom, a positive offset scrolls up.
pub open spec fn first_shown(total: nat, height: nat, offset: nat) -> nat {
    if total <= height + offset {
        0
    } else {
        (total - height - offset) as nat
    }
}

/// The command menu as it is shown.
#[derive(Debug)]
pub struct MenuFrame {
    pub area: Area,
    pub rows: Vec<Row>,
}

/// The chat view as it is shown.
#[derive(Debug)]
pub struct ChatFrame {
    pub title: String,
    pub rows: Vec<Row>,
    pub first_row: usize,
    pub input_title: String,
    pub cursor: (u16, u16),
    pub menu: Option<MenuFrame>,
    pub status: String,
}

fn menu_frame(selected: usize, input_area: Area) -> (r: MenuFrame)
    ensures
        r.area == menu_area(input_area),
        rows(r.rows@) == menu_rows(selected),
{
    let mut list: Vec<Row> = Vec::new();
    let mut i: usize = 0;
    while i < COMMAND_COUNT
        invariant
            i <= COMMAND_COUNT,
            list@.len() == i,
            forall|k: int| 0 <= k < i ==> (#[trigger] list@[k])@ == menu_row(k, k == selected),
        decreases COMMAND_COUNT - i,
    {
        let mut pieces: Vec<Piece> = Vec::new();
        if i == selected {
            pieces.push(Piece { text: text::cat("▸ ", tui::command(i)), tone: Tone::Picked });
            pieces.push(
                Piece { text: text::cat("  ", tui::command_hint(i)), tone: Tone::PickedHint },
            );
        } else {
            pieces.push(Piece { text: text::cat("  ", tui::command(i)), tone: Tone::Value });
            pieces.push(Piece { text: text::cat("  ", tui::command_hint(i)), tone: Tone::Faint });
        }
        let r = Row { pieces };
        assert(r@ =~= menu_row(i as int, i == selected));
        list.push(r);
        i += 1;
    }
    assert(rows(list@) =~= menu_rows(selected));
    let inner = input_area.width.saturating_sub(2);
    let area = Area {
        x: input_area.x.wrapping_add(1),
        y: input_area.y.saturating_sub(8),
        width: if inner < 60 {
            inner
        } else {
            60
        },
        height: 8,
    };
    MenuFrame { area, rows: list }
}

fn tokens_of(app: &ChatApp) -> (r: String)
    ensures
        r@ == token_text(app@),
{
    if app.total_input_tokens.wrapping_add(app.total_output_tokens) > 0 {
        let mut t = text::cat("tok: ↓", text::u64_text(app.total_input_tokens).as_str());
        t.append(" ↑");
        t.append(text::u64_text(app.total_output_tokens).as_str());
        t
    } else {
        String::new()
    }
}

/// Lays the chat view out. `height` is the number of lines that show the transcript,
/// `input_area` the area of the input with its border.
pub fn draw_chat(app: &ChatApp, input_area: Area, height: u16) -> (r: ChatFrame)
    requires
        tui::app_ok(app@),
    ensures
        r.title@ == chat_title(app@),
        rows(r.rows@) == history_rows(app@.history),
        r.first_row == first_shown(
            history_rows(app@.history).len(),
            height as nat,
            app@.scroll_offset as nat,
        ),
        r.input_title@ == input_title(app@),
        (r.cursor.0 as int, r.cursor.1 as int) == cursor_of(input_area, app@.input),
        match (r.menu, app@.cmd_menu) {
            (Some(m), Some(sel)) => m.area == menu_area(input_area) && rows(m.rows@) == menu_rows(
                sel,
            ),
            (None, None) => true,
            _ => false,
        },
        r.status@ == status_text(app@),
{
    let ghost s = app@.history;
    let mut list: Vec<Row> = Vec::new();
    let mut i: usize = 0;
    assert(s.take(0) =~= Seq::<ItemView>::empty());
    assert(rows(list@) =~= Seq::<Seq<PieceView>>::empty());
    while i < app.history.len()
        invariant
            i <= app.history@.len(),
            s == tui::item_views(app.history@),
            rows(list@) == history_rows(s.take(i as int)),
        decreases app.history@.len() - i,
    {
        proof {
            assert(s.take(i + 1).drop_last() =~= s.take(i as int));
            assert(s.take(i + 1).last() == app.history@[i as int]@);
        }
        push_item(&mut list, &app.history[i]);
        i += 1;
    }
    assert(s.take(s.len() as int) =~= s);
    assert(rows(list@).len() == list@.len());
    let title = if app.busy {
        let mut t = text::cat(" AgentRust ", tui::spinner_char(app.spinner_frame));
        t.append(" ");
        t
    } else {
        " AgentRust ".to_owned()
    };
    let input_title = if app.busy {
        " 输入（生成中…按 Esc 取消） ".to_owned()
    } else {
        " 输入（/ 打开菜单 · Tab 补全 · ↑↓ 历史） ".to_owned()
    };
    let len = (text::byte_len(app.input.as_str()) % 0x1_0000) as u16;
    let x = input_area.x.wrapping_add(1).wrapping_add(len);
    let last = input_area.x.saturating_add(input_area.width).wrapping_sub(1);
    let cursor = (
        if x < last {
            x
        } else {
            last
        },
        input_area.y.wrapping_add(1),
    );
    let menu = match app.cmd_menu {
        Some(sel) => Some(menu_frame(sel, input_area)),
        None => None,
    };
    let shown = height as usize;
    let offset = app.scroll_offset as usize;
    let first_row: usize = if list.len() > shown && list.len() - shown > offset {
        list.len() - shown - offset
    } else {
        0
    };
    let mut status = text::cat(app.form[0].value.as_str(), " · ");
    status.append(app.model_shown().as_str());
    status.append(" · msgs:");
    status.append(text::usize_text(app.history.len()).as_str());
    status.append(" ");
    status.append(tokens_of(app).as_str());
    status.append("  │  ");
    status.append(app.status.as_str());
    ChatFrame { title, rows: list, first_row, input_title, cursor, menu, status }
}

// ---- the settings view ----------------------------------------------------------------------------

/// A field's value as it is shown: the kind between arrows, a key as dots.
pub open spec fn shown_value(i: int, f: FieldView) -> Seq<char> {
    if i == 0 {
        "⟨ "@ + tui::kind_name(tui::kind_place(f.value)) + " ⟩  （← → 切换）"@
    } else if f.label == "API 密钥"@ && f.value.len() > 0 {
        "••••••"@
    } else {
        f.value
    }
}

/// The two lines of a field.
pub open spec fn field_rows(i: int, f: FieldView, active: bool) -> Seq<Seq<PieceView>> {
    seq![
        seq![
            PieceView {
                text: "  "@ + f.label + ":"@,
                tone: if active { Tone::Picked } else { Tone::Label },
            },
            PieceView { text: " "@, tone: Tone::Plain },
            PieceView { text: shown_value(i, f), tone: Tone::Value },
        ],
        seq![PieceView { text: "    ↳ "@ + f.hint, tone: Tone::Faint }],
    ]
}

/// The lines of the first `n` fields.
pub open spec fn form_rows(form: Seq<FieldView>, active: usize, n: nat) -> Seq<Seq<PieceView>>
    decreases n,
{
    if n == 0 {
        Seq::empty()
    } else {
        form_rows(form, active, (n - 1) as nat) + field_rows(n - 1, form[n - 1], n - 1 == active)
    }
}

/// The settings view as it is shown.
#[derive(Debug)]
pub struct SettingsFrame {
    pub title: String,
    pub rows: Vec<Row>,
    pub help: String,
    pub status: Piece,
}

/// The status bar of the settings view: a warning while the key is edited.
pub open spec fn settings_status(a: AppView) -> PieceView {
    if a.form_active == 2 {
        PieceView {
            text: " API 密钥保存在本地 auth.json（明文）；共享机器建议限制文件权限 "@,
            tone: Tone::Warning,
        }
    } else {
        PieceView { text: a.status, tone: Tone::Plain }
    }
}

fn push_field(out: &mut Vec<Row>, i: usize, f: &FormField, active: bool)
    ensures
        rows(final(out)@) == rows(old(out)@) + field_rows(i as int, f@, active),
{
    let shown = if i == 0 {
        let mut t = text::cat("⟨ ", tui::kind_option(tui::kind_index(f.value.as_str())));
        t.append(" ⟩  （← → 切换）");
        t
    } else if text::str_eq(f.label, "API 密钥") && !f.value.as_str().is_empty() {
        "••••••".to_owned()
    } else {
        f.value.clone()
    };
    let mut label = text::cat("  ", f.label);
    label.append(":");
    let mut pieces: Vec<Piece> = Vec::new();
    pieces.push(
        Piece {
            text: label,
            tone: if active {
                Tone::Picked
            } else {
                Tone::Label
            },
        },
    );
    pieces.push(piece(" ", Tone::Plain));
    pieces.push(Piece { text: shown, tone: Tone::Value });
    let mut hint: Vec<Piece> = Vec::new();
    hint.push(Piece { text: text::cat("    ↳ ", f.hint.as_str()), tone: Tone::Faint });
    let a = Row { pieces };
    let b = Row { pieces: hint };
    let ghost want = field_rows(i as int, f@, active);
    assert(a@ =~= want[0]);
    assert(b@ =~= want[1]);
    let ghost before = out@;
    out.push(a);
    out.push(b);
    assert(rows(out@) =~= rows(before) + want);
}

/// Lays the settings view out.
pub fn draw_settings(app: &ChatApp) -> (r: SettingsFrame)
    requires
        tui::app_ok(app@),
    ensures
        r.title@ == " /settings · 配置 "@,
        rows(r.rows@) == form_rows(app@.form, app@.form_active, 4),
        r.help@
            == " ↑/↓ 或 Tab 选择字段 · ← → 切换类型 · 输入编辑 · Enter 保存并返回 · Esc 取消 "@,
        r.status@ == settings_status(app@),
{
    let mut list: Vec<Row> = Vec::new();
    let mut i: usize = 0;
    assert(rows(list@) =~= Seq::<Seq<PieceView>>::empty());
    while i < FIELD_COUNT
        invariant
            i <= FIELD_COUNT,
            tui::app_ok(app@),
            rows(list@) == form_rows(app@.form, app@.form_active, i as nat),
        decreases FIELD_COUNT - i,
    {
        assert(app@.form[i as int] == app.form@[i as int]@);
        push_field(&mut list, i, &app.form[i], i == app.form_active);
        i += 1;
    }
    let status = if app.form_active == 2 {
        piece(
            " API 密钥保存在本地 auth.json（明文）；共享机器建议限制文件权限 ",
            Tone::Warning,
        )
    } else {
        piece(app.status.as_str(), Tone::Plain)
    };
    SettingsFrame {
        title: " /settings · 配置 ".to_owned(),
        rows: list,
        help:
            " ↑/↓ 或 Tab 选择字段 · ← → 切换类型 · 输入编辑 · Enter 保存并返回 · Esc 取消 ".to_owned(),
        status,
    }
}

// ---- laws -----------------------------------------------------------------------------------------

/// A key that was typed is never shown: whatever it is, the field's line is the same.
pub proof fn keys_are_hidden(f: FieldView, g: FieldView, active: bool)
    requires
        f.label == "API 密钥"@,
        g.label == f.label,
        g.hint == f.hint,
        f.value.len() > 0,
        g.value.len() > 0,
    ensures
        field_rows(2, f, active) == field_rows(2, g, active),
{
}

/// The transcript is never scrolled past either end: the first line shown is one of its
/// lines, and without an offset the last line is visible.
pub proof fn scrolling_stays_inside(total: nat, height: nat, offset: nat)
    ensures
        first_shown(total, height, offset) <= total,
        total <= first_shown(total, height, 0) + height,
        first_shown(total, height, offset + 1) <= first_shown(total, height, offset),
{
}

proof fn lemma_roles()
    ensures
        "user"@ != "assistant"@,
        "user"@ != "system"@,
        "assistant"@ != "system"@,
{
    reveal_strlit("user");
    reveal_strlit("assistant");
    reveal_strlit("system");
    assert("user"@.len() != "assistant"@.len());
    assert("user"@.len() != "system"@.len());
    assert("assistant"@.len() != "system"@.len());
}


/// Each speaker has a name and a tone of its own; other roles go by their own word.
pub proof fn speakers_are_told_apart(role: Seq<char>)
    ensures
        name_piece("user"@) == (PieceView { text: "  "@ + "你"@ + "  "@, tone: Tone::User }),
        name_piece("assistant"@) == (PieceView {
            text: "  "@ + "助手"@ + "  "@,
            tone: Tone::Assistant,
        }),
        name_piece("system"@) == (PieceView { text: "  "@ + "系统"@ + "  "@, tone: Tone::System }),
        role != "user"@ && role != "assistant"@ && role != "system"@ ==> name_piece(role) == (
        PieceView { text: "  "@ + role + "  "@, tone: Tone::Other }),
{
    lemma_roles();
}

/// A line of a message is shown as it is: fences and what they begin faint, a line of code in
/// backticks as code, everything else plain.
pub proof fn lines_are_shown_as_they_are(t: Seq<char>)
    ensures
        text_piece(t).text == t,
        text_piece("```"@ + t).tone == Tone::Faint,
        t.len() == 0 || t[0] != '`' ==> text_piece("`"@ + t + "`"@).tone == Tone::Code,
        t.len() > 0 && t[0] != '`' ==> text_piece(t).tone == Tone::Plain,
        t.len() > 0 && t.last() != '`' && !text::has_prefix(t, "```"@) ==> text_piece(t).tone
            == Tone::Plain,
        t.len() == 0 ==> text_piece(t).tone == Tone::Plain,
{
    reveal_strlit("`");
    reveal_strlit("```");
    text::prefixes_and_suffixes("```"@, t, t);
    let c = "`"@ + t + "`"@;
    text::prefixes_and_suffixes("`"@, t + "`"@, c);
    text::prefixes_and_suffixes("`"@, "`"@ + t, c);
    assert(c =~= "`"@ + (t + "`"@));
    assert(c =~= ("`"@ + t) + "`"@);
    if t.len() > 0 {
        if text::has_prefix(c, "```"@) {
            assert(c.take(3)[1] == c[1]);
            assert(c[1] == t[0]);
        }
        if text::has_prefix(t, "```"@) {
            assert(t.take(3)[0] == t[0]);
        }
        if text::has_prefix(t, "`"@) {
            assert(t.take(1)[0] == t[0]);
        }
        if text::has_suffix(t, "`"@) {
            assert(t.skip(t.len() - 1)[0] == t.last());
        }
    }
}

/// Every line of a message is shown, in order, the first behind the speaker and the time, the
/// others indented; a message without lines shows the speaker. A blank line follows.
pub proof fn messages_are_shown_whole(item: ItemView, i: int)
    ensures
        ({
            let lines = text::text_lines(item.text);
            let shown = item_rows(item);
            &&& lines.len() == 0 ==> shown.len() == 2 && shown[0] == seq![name_piece(item.role)]
            &&& lines.len() > 0 ==> shown.len() == lines.len() + 1
            &&& shown.last().len() == 0
            &&& lines.len() > 0 ==> shown[0] == seq![
                name_piece(item.role),
                PieceView { text: "["@ + item.time + "] "@, tone: Tone::Faint },
                text_piece(lines[0]),
            ]
            &&& 0 < i < lines.len() ==> shown[i] == seq![
                PieceView { text: "        "@, tone: Tone::Plain },
                text_piece(lines[i]),
            ]
        }),
{
    let lines = text::text_lines(item.text);
    if lines.len() > 0 {
        let body = Seq::new(lines.len(), |k: int| text_row(item, k, lines[k]));
        assert(item_rows(item) =~= body.push(Seq::empty()));
        assert(body[0] == text_row(item, 0, lines[0]));
    }
}

/// The transcript is shown message by message.
pub proof fn transcripts_are_shown_in_order(s: Seq<ItemView>, item: ItemView)
    ensures
        history_rows(Seq::empty()).len() == 0,
        history_rows(s.push(item)) == history_rows(s) + item_rows(item),
{
    assert(s.push(item).drop_last() =~= s);
}

/// The titles say whether an answer streams; the spinner shows it.
pub proof fn titles_show_the_work(a: AppView)
    ensures
        !a.busy ==> chat_title(a) == " AgentRust "@,
        a.busy ==> chat_title(a) == " AgentRust "@ + tui::spinner_frame_text(
            a.spinner_frame as int % 8,
        ) + " "@,
        a.busy ==> input_title(a) == " 输入（生成中…按 Esc 取消） "@,
        !a.busy ==> input_title(a) == " 输入（/ 打开菜单 · Tab 补全 · ↑↓ 历史） "@,
{
}

/// On an ordinary screen the cursor stands behind the input, one line below the border, and
/// never beyond the last column inside it.
pub proof fn cursor_follows_the_input(area: Area, input: Seq<char>)
    requires
        area.x + area.width < 65535,
        area.y < 65535,
        area.x + area.width > 0,
        text::byte_count(input) < 65535 - area.x,
    ensures
        ({
            let n = text::byte_count(input);
            &&& cursor_of(area, input).1 == area.y + 1
            &&& area.x + 1 + n < area.x + area.width - 1 ==> cursor_of(area, input).0 == area.x + 1
                + n
            &&& area.x + 1 + n >= area.x + area.width - 1 ==> cursor_of(area, input).0 == area.x
                + area.width - 1
        }),
        right_of(area) == area.x + area.width,
{
}

/// Far out on the screen coordinates stop or wrap around as machine words do.
pub proof fn far_coordinates(area: Area, a: int, b: int)
    requires
        0 <= a <= 65535,
        0 <= b <= 65535,
    ensures
        a + b <= 65535 ==> wrapped(a, b) == a + b,
        a + b > 65535 ==> wrapped(a, b) == a + b - 65536,
        area.x + area.width > 65535 ==> right_of(area) == 65535,
{
}

/// The menu stands right above the input, as wide as the input inside its border but not wider
/// than sixty columns, and eight lines high.
pub proof fn menu_stands_above_the_input(area: Area)
    requires
        area.x < 65535,
    ensures
        menu_area(area).height == 8,
        menu_area(area).x == area.x + 1,
        area.y >= 8 ==> menu_area(area).y + 8 == area.y,
        area.y < 8 ==> menu_area(area).y == 0,
        menu_area(area).width <= 60,
        area.width >= 62 ==> menu_area(area).width == 60,
        2 <= area.width < 62 ==> menu_area(area).width == area.width - 2,
        area.width < 2 ==> menu_area(area).width == 0,
{
}

/// The menu lists the six commands with what they do; the selected one, and no other, is marked.
pub proof fn menu_marks_the_selected(selected: usize, i: int)
    requires
        0 <= i < 6,
    ensures
        menu_rows(selected).len() == 6,
        menu_rows(selected)[i].len() == 2,
        i == selected ==> menu_rows(selected)[i][0] == (PieceView {
            text: "▸ "@ + tui::command_name(i),
            tone: Tone::Picked,
        }) && menu_rows(selected)[i][1] == (PieceView {
            text: "  "@ + tui::command_purpose(i),
            tone: Tone::PickedHint,
        }),
        i != selected ==> menu_rows(selected)[i][0] == (PieceView {
            text: "  "@ + tui::command_name(i),
            tone: Tone::Value,
        }) && menu_rows(selected)[i][1] == (PieceView {
            text: "  "@ + tui::command_purpose(i),
            tone: Tone::Faint,
        }),
{
}

/// The status bar tells the provider, the model, the number of messages, the tokens where any
/// are counted, and the status.
pub proof fn status_bar_tells_all(a: AppView)
    requires
        a.form.len() == 4,
    ensures
        a.total_input_tokens == 0 && a.total_output_tokens == 0 ==> token_text(a).len() == 0,
        a.total_input_tokens + a.total_output_tokens <= u64::MAX && (a.total_input_tokens > 0
            || a.total_output_tokens > 0) ==> token_text(a) == "tok: ↓"@ + text::decimal(
            a.total_input_tokens as nat,
        ) + " ↑"@ + text::decimal(a.total_output_tokens as nat),
        a.form[3].value.len() > 0 ==> status_text(a) == a.form[0].value + " · "@ + a.form[3].value
            + " · msgs:"@ + text::decimal(a.history.len()) + " "@ + token_text(a) + "  │  "@
            + a.status,
        a.form[3].value.len() == 0 ==> status_text(a) == a.form[0].value + " · "@ + "（未设置）"@
            + " · msgs:"@ + text::decimal(a.history.len()) + " "@ + token_text(a) + "  │  "@
            + a.status,
        text::has_suffix(status_text(a), a.status),
{
    let t = status_text(a);
    assert(t.skip(t.len() - a.status.len()) =~= a.status);
}

/// What fits is shown whole; otherwise the last lines are, or those further up by as many lines
/// as were scrolled.
pub proof fn scrolling_moves_by_lines(total: nat, height: nat, offset: nat)
    ensures
        total <= height ==> first_shown(total, height, offset) == 0,
        total > height ==> first_shown(total, height, 0) == total - height,
        total >= height + offset ==> first_shown(total, height, offset) + height + offset == total,
        total < height + offset ==> first_shown(total, height, offset) == 0,
{
}

proof fn lemma_labels()
    ensures
        "API 密钥"@ != "接口地址"@,
        "API 密钥"@ != "模型 ID"@,
{
    reveal_strlit("API 密钥");
    reveal_strlit("接口地址");
    reveal_strlit("模型 ID");
    assert("API 密钥"@.len() != "接口地址"@.len());
    assert("API 密钥"@.len() != "模型 ID"@.len());
}


/// Values are shown as they are, but the kind between arrows and a key as dots; an empty key
/// shows nothing.
pub proof fn values_are_shown(f: FieldView)
    ensures
        f.value == "anthropic messages"@ ==> shown_value(0, f) == "⟨ "@ + f.value
            + " ⟩  （← → 切换）"@,
        f.value == "openai chat"@ ==> shown_value(0, f) == "⟨ "@ + f.value + " ⟩  （← → 切换）"@,
        f.value == "openai responses"@ ==> shown_value(0, f) == "⟨ "@ + f.value
            + " ⟩  （← → 切换）"@,
        f.value == "deepseek chat"@ ==> shown_value(0, f) == "⟨ "@ + f.value + " ⟩  （← → 切换）"@,
        f.label == "接口地址"@ ==> shown_value(1, f) == f.value,
        f.label == "模型 ID"@ ==> shown_value(3, f) == f.value,
        f.label == "API 密钥"@ && f.value.len() > 0 ==> shown_value(2, f) == "••••••"@,
        f.label == "API 密钥"@ && f.value.len() == 0 ==> shown_value(2, f).len() == 0,
{
    lemma_labels();
}

/// The form is shown field by field: the label, which is marked where the field is active, the
/// value, and the hint below.
pub proof fn forms_are_shown_field_by_field(form: Seq<FieldView>, active: usize, n: nat)
    ensures
        form_rows(form, active, 0).len() == 0,
        form_rows(form, active, n + 1) == form_rows(form, active, n) + seq![
            seq![
                PieceView {
                    text: "  "@ + form[n as int].label + ":"@,
                    tone: if n == active {
                        Tone::Picked
                    } else {
                        Tone::Label
                    },
                },
                PieceView { text: " "@, tone: Tone::Plain },
                PieceView { text: shown_value(n as int, form[n as int]), tone: Tone::Value },
            ],
            seq![PieceView { text: "    ↳ "@ + form[n as int].hint, tone: Tone::Faint }],
        ],
{
}

/// While the key is edited the status bar warns of where it is kept; else it shows the status.
pub proof fn editing_the_key_warns(a: AppView)
    ensures
        a.form_active == 2 ==> settings_status(a) == (PieceView {
            text: " API 密钥保存在本地 auth.json（明文）；共享机器建议限制文件权限 "@,
            tone: Tone::Warning,
        }),
        a.form_active != 2 ==> settings_status(a) == (PieceView {
            text: a.status,
            tone: Tone::Plain,
        }),
{
}

} // verus!
