use agentrust::bus::{Event, HookAction};
use agentrust::creds::Credentials;
use agentrust::error::AiError;
use agentrust::headless::{
    print_prompts, printed, prompt_line, session_end, session_start, turn_end, Printed,
};
use agentrust::json::{parse_or_null, Json};
use agentrust::model::{Model, Usage};
use agentrust::provider::{Provider, Wire};
use agentrust::rpc::{answer, handle_command, handle_line, output_line, RpcStep};
use agentrust::setup::{setup_session, CommonArgs};
use agentrust::stream::{StopReason, StreamEvent};
use agentrust::tui::{
    cycle_kind, handle_key, plan_request, run_command, spinner_char, stream_msg, whole_msgs,
    ChatApp, ChatItem, Key, KeyOutcome, Mode, SaveResult, StreamMsg,
};
use agentrust::tui_view::{draw_chat, draw_settings, Area, Row, Tone};

const NOW: &str = "12:34:56";

fn no_settings() -> Json {
    Json::object()
}

fn no_keys() -> Credentials {
    Credentials::from_env(None, None, None)
}

fn app() -> ChatApp {
    ChatApp::new(NOW)
}

#[test]
fn cycle_kind_wraps_forward() {
    assert_eq!(cycle_kind("anthropic messages", true), "openai chat");
    assert_eq!(cycle_kind("openai chat", true), "openai responses");
    assert_eq!(cycle_kind("openai responses", true), "deepseek chat");
    assert_eq!(cycle_kind("deepseek chat", true), "anthropic messages");
}

#[test]
fn cycle_kind_wraps_backward() {
    assert_eq!(cycle_kind("anthropic messages", false), "deepseek chat");
    assert_eq!(cycle_kind("deepseek chat", false), "openai responses");
}

#[test]
fn cycle_kind_unknown_falls_to_first() {
    assert_eq!(cycle_kind("bogus", true), "openai chat");
    assert_eq!(cycle_kind("bogus", false), "deepseek chat");
}

#[test]
fn run_command_dispatches() {
    let mut app = app();
    assert!(run_command(&mut app, "/设置", NOW, &no_settings()));
    assert!(matches!(app.mode, Mode::Settings));
    app.mode = Mode::Chat;
    assert!(run_command(&mut app, "/清空", NOW, &no_settings()));
    assert_eq!(app.history.len(), 1);
    assert!(!run_command(&mut app, "/退出", NOW, &no_settings()));
}

#[test]
fn input_history_recall() {
    let mut app = app();
    app.input_history = vec!["hello".into(), "world".into(), "foo".into()];
    app.recall_prev();
    assert_eq!(app.input, "foo");
    app.recall_prev();
    assert_eq!(app.input, "world");
    app.recall_next();
    assert_eq!(app.input, "foo");
    app.recall_next();
    assert!(app.input.is_empty());
}

#[test]
fn spinner_cycles() {
    assert_eq!(spinner_char(0), "⠋");
    assert_eq!(spinner_char(1), "⠙");
    assert_eq!(spinner_char(8), "⠋"); // wraps
}

#[test]
fn tab_complete_single_match() {
    let mut app = app();
    app.input = "/设".to_string();
    app.tab_complete(NOW);
    assert_eq!(app.input, "/设置 ");
}

#[test]
fn tab_complete_no_match() {
    let mut app = app();
    app.input = "/xyz".to_string();
    app.tab_complete(NOW);
    assert_eq!(app.input, "/xyz"); // unchanged
}

#[test]
fn tab_complete_lists_several_matches() {
    let mut app = app();
    app.input = " /".to_string();
    app.tab_complete(NOW);
    assert_eq!(app.input, " /");
    assert_eq!(
        app.history.last().unwrap().text,
        "可补全: /设置, /帮助, /清空, /统计, /模型, /退出"
    );
    app.input = "plain".to_string();
    app.tab_complete(NOW);
    assert_eq!(app.history.len(), 2);
}

fn press(app: &mut ChatApp, key: Key) -> KeyOutcome {
    handle_key(app, key, false, NOW, &no_settings())
}

fn type_in(app: &mut ChatApp, t: &str) {
    for c in t.chars() {
        assert!(matches!(press(app, Key::Char(c)), KeyOutcome::Continue));
    }
}

#[test]
fn a_slash_opens_the_menu() {
    let mut app = app();
    type_in(&mut app, "/");
    assert_eq!(app.cmd_menu, Some(0));
    press(&mut app, Key::Up);
    assert_eq!(app.cmd_menu, Some(5));
    press(&mut app, Key::Down);
    press(&mut app, Key::Down);
    assert_eq!(app.cmd_menu, Some(1));
    type_in(&mut app, "x");
    assert_eq!(app.input, "/");
    press(&mut app, Key::Enter);
    assert_eq!((app.cmd_menu, app.input.as_str()), (None, ""));
    assert!(app.history[1].text.starts_with("快捷键："));
    type_in(&mut app, "/");
    press(&mut app, Key::Backspace);
    assert_eq!((app.cmd_menu, app.input.as_str()), (None, ""));
    type_in(&mut app, "/");
    press(&mut app, Key::Up);
    assert!(matches!(press(&mut app, Key::Tab), KeyOutcome::Quit));
    type_in(&mut app, "/");
    press(&mut app, Key::Esc);
    assert_eq!((app.cmd_menu, app.input.as_str()), (None, ""));
}

#[test]
fn slashes_are_typed_only_once_in_front() {
    let mut app = app();
    type_in(&mut app, "a/b");
    assert_eq!(app.input, "a/b");
    app.input = "/x".to_string();
    type_in(&mut app, "/y");
    assert_eq!(app.input, "/xy");
    press(&mut app, Key::Backspace);
    assert_eq!(app.input, "/x");
}

#[test]
fn commands_can_be_typed() {
    let mut app = app();
    app.form[0].value = "openai chat".into();
    for (t, shown) in [
        ("/统计", "消息数: 1 (用户: 0, 助手: 0)\nToken: 输入 0 / 输出 0"),
        ("/模型", "服务商: openai chat\n模型: （未设置）"),
    ] {
        app.input = t.to_string();
        assert!(matches!(press(&mut app, Key::Enter), KeyOutcome::Continue));
        assert_eq!(app.history.last().unwrap().text, shown);
        assert_eq!(app.input, "");
    }
    app.input = " /quit ".to_string();
    assert!(matches!(press(&mut app, Key::Enter), KeyOutcome::Quit));
    app.input = "  ".to_string();
    assert!(matches!(press(&mut app, Key::Enter), KeyOutcome::Continue));
    app.input = "/设置".to_string();
    let auth = Json::object().with("default_model", Json::of_str("mm"));
    handle_key(&mut app, Key::Enter, false, NOW, &auth);
    assert_eq!(app.mode, Mode::Settings);
    assert_eq!(app.form[3].value, "mm");
}

#[test]
fn control_keys_quit_and_clear() {
    let mut app = app();
    app.history.push(ChatItem::new("user", "x", NOW));
    let auth = no_settings();
    assert!(matches!(
        handle_key(&mut app, Key::Char('l'), true, NOW, &auth),
        KeyOutcome::Continue
    ));
    assert_eq!(app.history.len(), 1);
    assert_eq!(app.history[0].text, "AgentRust · 屏幕已清空");
    assert!(matches!(handle_key(&mut app, Key::Char('c'), true, NOW, &auth), KeyOutcome::Quit));
    press(&mut app, Key::PageUp);
    press(&mut app, Key::PageUp);
    press(&mut app, Key::PageDown);
    assert_eq!(app.scroll_offset, 5);
    press(&mut app, Key::PageDown);
    press(&mut app, Key::PageDown);
    assert_eq!(app.scroll_offset, 0);
}

fn sent(app: &mut ChatApp, t: &str) -> String {
    app.input = t.to_string();
    match press(app, Key::Enter) {
        KeyOutcome::Send(t) => t,
        other => panic!("expected a text to send, got {other:?}"),
    }
}

#[test]
fn answers_stream_into_the_transcript() {
    let mut app = app();
    assert_eq!(sent(&mut app, " hi "), "hi");
    assert!(app.busy && app.connected);
    assert_eq!(app.streaming_item, Some(2));
    assert_eq!(app.input_history, vec![" hi ".to_string()]);
    // a second text is refused
    app.input = "again".to_string();
    assert!(matches!(press(&mut app, Key::Enter), KeyOutcome::Continue));
    assert_eq!(app.status, "正在生成中，请稍候…");
    assert_eq!(app.input, "again");
    let usage = Usage { input: 11, output: 7, cache_read: 1, cache_write: 2, total: 21 };
    let items = vec![
        Ok(StreamEvent::TextDelta { delta: "Hel".into() }),
        Ok(StreamEvent::ThinkingDelta { delta: "hidden".into() }),
        Ok(StreamEvent::TextDelta { delta: "lo".into() }),
        Ok(StreamEvent::Usage { usage }),
        Ok(StreamEvent::Done { stop_reason: StopReason::Stop }),
    ];
    let msgs: Vec<StreamMsg> = items.into_iter().filter_map(stream_msg).collect();
    assert_eq!(msgs.len(), 4);
    assert!(app.stream_ready());
    assert!(app.begin_frame(msgs, "12:35:00", true));
    assert_eq!(app.history[2].text, "Hello");
    assert_eq!(app.history[2].time, "12:35:00");
    assert_eq!((app.total_input_tokens, app.total_output_tokens), (11, 7));
    assert_eq!(app.status, "用量：输入=11 输出=7 缓存读=1 缓存写=2 总计=21");
    assert!(!app.busy && !app.connected);
    assert_eq!(app.streaming_item, None);
    assert_eq!(app.spinner_frame, 0);
}

#[test]
fn the_spinner_turns_while_an_answer_streams() {
    let mut app = app();
    assert!(app.begin_frame(Vec::new(), NOW, true));
    assert_eq!(app.spinner_frame, 0);
    sent(&mut app, "x");
    app.begin_frame(Vec::new(), NOW, true);
    app.begin_frame(Vec::new(), NOW, false);
    app.begin_frame(Vec::new(), NOW, true);
    assert_eq!(app.spinner_frame, 2);
}

#[test]
fn failures_end_the_answer() {
    let mut app = app();
    sent(&mut app, "x");
    let failed = stream_msg(Err(AiError::Other("down".into()))).unwrap();
    assert!(!app.begin_frame(vec![failed, StreamMsg::Delta("late".into())], NOW, true));
    assert_eq!(app.status, "错误：down");
    assert_eq!(app.history.last().unwrap().text, "错误：down");
    assert_eq!(app.history[2].text, "");
    assert!(!app.busy && !app.connected);
}

#[test]
fn escape_cancels_and_clearing_breaks_the_stream() {
    let mut app = app();
    sent(&mut app, "x");
    handle_key(&mut app, Key::Char('l'), true, NOW, &no_settings());
    assert!(!app.stream_ready());
    press(&mut app, Key::Esc);
    assert!(app.stream_ready());
    assert_eq!(app.status, "已取消");
    assert!(!app.busy);
}

#[test]
fn whole_answers_become_two_messages() {
    let usage = Usage { input: 3, output: 4, cache_read: 0, cache_write: 0, total: 7 };
    let (text, end) = whole_msgs("all".into(), &usage);
    assert!(matches!(text, StreamMsg::Delta(t) if t == "all"));
    assert!(matches!(end, StreamMsg::Done(t) if t == "用量：输入=3 输出=4"));
    assert!(matches!(
        stream_msg(Ok(StreamEvent::Done { stop_reason: StopReason::ToolUse })),
        Some(StreamMsg::Done(t)) if t == "结束：ToolUse"
    ));
    assert!(stream_msg(Ok(StreamEvent::ToolCallDone { id: "x".into() })).is_none());
}

#[test]
fn settings_are_edited_and_saved() {
    let mut app = app();
    run_command(&mut app, "/设置", NOW, &no_settings());
    assert_eq!(app.form[0].value, "openai chat");
    press(&mut app, Key::Right);
    assert_eq!(app.form[0].value, "openai responses");
    press(&mut app, Key::Left);
    type_in(&mut app, "ignored");
    press(&mut app, Key::Down);
    type_in(&mut app, "http://hx");
    press(&mut app, Key::Backspace);
    press(&mut app, Key::Tab);
    type_in(&mut app, "key");
    press(&mut app, Key::Down);
    press(&mut app, Key::Down);
    assert_eq!(app.form_active, 3);
    let patch = match press(&mut app, Key::Enter) {
        KeyOutcome::Save(p) => p,
        other => panic!("expected settings to save, got {other:?}"),
    };
    assert_eq!(
        output_line(&patch),
        "{\"openai\":{\"api_key\":\"key\",\"base_url\":\"http://h\"},\"provider\":\"openai chat\"}"
    );
    app.saved(SaveResult::NoHome);
    assert_eq!(app.mode, Mode::Settings);
    app.saved(SaveResult::Error("full".into()));
    assert_eq!(app.status, "写入失败：full");
    app.saved(SaveResult::Written);
    assert_eq!((app.mode, app.status.as_str()), (Mode::Chat, "设置已保存"));
    // what was saved is what is loaded
    let mut again = ChatApp::new(NOW);
    again.load_form(&patch);
    assert_eq!(again.form[0].value, "openai chat");
    assert_eq!(again.form[1].value, "http://h");
    assert_eq!(again.form[2].value, "key");
}

#[test]
fn unknown_kinds_are_not_saved() {
    let mut app = app();
    app.mode = Mode::Settings;
    app.form[0].value = "bogus".into();
    assert!(matches!(press(&mut app, Key::Enter), KeyOutcome::Continue));
    assert_eq!(app.status, "未知类型: 'bogus'");
    press(&mut app, Key::Tab);
    press(&mut app, Key::Up);
    assert_eq!(app.form_active, 0);
    press(&mut app, Key::Esc);
    assert_eq!((app.mode, app.status.as_str()), (Mode::Chat, "已放弃修改"));
}

#[test]
fn texts_are_sent_to_the_configured_provider() {
    let auth = Json::object()
        .with("provider", Json::of_str("anthropic"))
        .with("anthropic", Json::object().with("base_url", Json::of_str("http://a/v1")));
    let creds = Credentials::from_env(Some("SECRET".into()), None, None);
    assert_eq!(plan_request(&auth, &creds, "hi").unwrap_err(), "未配置模型");
    let auth = auth.with("default_model", Json::of_str("m1"));
    let (h, wire) = plan_request(&auth, &creds, "hi").unwrap();
    assert_eq!(h.url, "http://a/v1/messages");
    assert_eq!(wire, Some(Wire::Anthropic));
    assert_eq!(h.headers[0].1, "SECRET");
    assert_eq!(
        h.body,
        "{\"max_tokens\":4096,\"messages\":[{\"content\":[{\"text\":\"hi\",\"type\":\"text\"}],\
         \"role\":\"user\"}],\"model\":\"m1\",\"stream\":true,\"system\":\"\"}"
    );
    let bogus = Json::object().with("provider", Json::of_str("bogus"));
    assert_eq!(
        plan_request(&bogus, &creds, "hi").unwrap_err(),
        "没有配置有效的 provider；请执行 /settings 设置"
    );
    assert_eq!(
        plan_request(&no_settings(), &no_keys(), "hi").unwrap_err(),
        "未配置 API 密钥；请通过 --api-key、auth.json 或环境变量设置"
    );
}

// ---- frames -----------------------------------------------------------------------------------

fn shown(rows: &[Row]) -> Vec<String> {
    rows.iter().map(|r| r.pieces.iter().map(|p| p.text.as_str()).collect()).collect()
}

const INPUT: Area = Area { x: 0, y: 20, width: 80, height: 3 };

#[test]
fn the_chat_view_is_laid_out() {
    let mut app = app();
    app.form[0].value = "openai chat".into();
    app.history.push(ChatItem::new("assistant", "one\n```rust\n`x`\n", NOW));
    app.history.push(ChatItem::new("guest", "", NOW));
    app.input = "héy".into();
    app.status = "ok".into();
    let f = draw_chat(&app, INPUT, 4);
    assert_eq!(
        shown(&f.rows),
        vec![
            "  系统  [12:34:56] AgentRust · 输入 / 打开命令菜单，其他内容发送给模型",
            "",
            "  助手  [12:34:56] one",
            "        ```rust",
            "        `x`",
            "",
            "  guest  ",
            "",
        ]
    );
    assert_eq!(f.rows[2].pieces[0].tone, Tone::Assistant);
    assert_eq!(f.rows[3].pieces[1].tone, Tone::Faint);
    assert_eq!(f.rows[4].pieces[1].tone, Tone::Code);
    assert_eq!(f.title, " AgentRust ");
    assert_eq!(f.cursor, (5, 21));
    assert!(f.menu.is_none());
    assert_eq!(f.status, "openai chat · （未设置） · msgs:3   │  ok");
    assert_eq!(f.first_row, 4);
    app.scroll_offset = 3;
    assert_eq!(draw_chat(&app, INPUT, 4).first_row, 1);
    app.scroll_offset = 30;
    assert_eq!(draw_chat(&app, INPUT, 4).first_row, 0);
    app.busy = true;
    app.total_input_tokens = 5;
    let f = draw_chat(&app, INPUT, 4);
    assert_eq!(f.title, " AgentRust ⠋ ");
    assert_eq!(f.input_title, " 输入（生成中…按 Esc 取消） ");
    assert!(f.status.contains("tok: ↓5 ↑0"));
}

#[test]
fn the_menu_sits_above_the_input() {
    let mut app = app();
    app.cmd_menu = Some(1);
    app.input = "x".repeat(200);
    let f = draw_chat(&app, INPUT, 4);
    assert_eq!(f.cursor, (79, 21));
    let menu = f.menu.unwrap();
    assert_eq!(menu.area, Area { x: 1, y: 12, width: 60, height: 8 });
    assert_eq!(shown(&menu.rows)[1], "▸ /帮助  查看帮助");
    assert_eq!(shown(&menu.rows)[5], "  /退出  退出");
    assert_eq!(menu.rows[1].pieces[0].tone, Tone::Picked);
    let narrow = Area { x: 4, y: 3, width: 10, height: 3 };
    let menu = draw_chat(&app, narrow, 4).menu.unwrap();
    assert_eq!(menu.area, Area { x: 5, y: 0, width: 8, height: 8 });
}

#[test]
fn the_settings_view_hides_the_key() {
    let mut app = app();
    app.form[2].value = "key".into();
    app.form[3].value = "mm".into();
    app.form_active = 2;
    let f = draw_settings(&app);
    assert_eq!(
        shown(&f.rows),
        vec![
            "  类型: ⟨ anthropic messages ⟩  （← → 切换）",
            "    ↳ ← → 切换类型",
            "  接口地址: ",
            "    ↳ 填到前缀即可，例如 https://api.openai.com/v1；留空用默认",
            "  API 密钥: ••••••",
            "    ↳ 留空则尝试环境变量",
            "  模型 ID: mm",
            "    ↳ 例如 gpt-4o-mini, deepseek-chat",
        ]
    );
    assert_eq!(f.rows[4].pieces[0].tone, Tone::Picked);
    assert_eq!(f.status.tone, Tone::Warning);
    app.form_active = 0;
    app.status = "s".into();
    assert_eq!(draw_settings(&app).status.text, "s");
}

// ---- RPC, JSON and print modes ----------------------------------------------------------------

#[test]
fn rpc_commands_are_answered() {
    assert!(matches!(handle_line("  "), RpcStep::Ignore));
    match handle_line(" {\"id\":\"1\",\"type\":\"prompt\",\"message\":\"hello\"} ") {
        RpcStep::Prompt { reply, id, text } => {
            assert_eq!(
                output_line(&reply),
                "{\"command\":\"prompt\",\"id\":\"1\",\"success\":true,\"type\":\"response\"}"
            );
            assert_eq!(id.unwrap().as_str(), Some("1"));
            assert_eq!(text, "hello");
        }
        other => panic!("expected a prompt, got {other:?}"),
    }
    match handle_command(&parse_or_null("{\"id\":7,\"type\":\"ping\"}")) {
        RpcStep::Reply(j) => assert_eq!(
            output_line(&j),
            "{\"command\":\"ping\",\"id\":7,\"message\":\"pong\",\"success\":true,\
             \"type\":\"response\"}"
        ),
        other => panic!("expected a reply, got {other:?}"),
    }
    match handle_line("{\"type\":\"clear\"}") {
        RpcStep::Clear(j) => assert_eq!(
            output_line(&j),
            "{\"command\":\"clear\",\"id\":null,\"success\":true,\"type\":\"response\"}"
        ),
        other => panic!("expected a clear, got {other:?}"),
    }
    match handle_line("{\"id\":[1],\"type\":\"abort\"}") {
        RpcStep::Reply(j) => assert_eq!(j.get("command").unwrap().as_str(), Some("abort")),
        other => panic!("expected a reply, got {other:?}"),
    }
}

#[test]
fn rpc_errors_say_what_is_wrong() {
    match handle_line("{\"id\":2,\"type\":\"dance\"}") {
        RpcStep::Reply(j) => assert_eq!(
            output_line(&j),
            "{\"error\":\"未知命令: dance\",\"id\":2,\"success\":false,\"type\":\"response\"}"
        ),
        other => panic!("expected an error, got {other:?}"),
    }
    match handle_line("{nope") {
        RpcStep::Reply(j) => {
            assert!(j.get("id").unwrap().is_null());
            assert!(j.get("error").unwrap().as_str().unwrap().starts_with("无效的 JSON: "));
        }
        other => panic!("expected an error, got {other:?}"),
    }
}

fn lines(v: &[Json]) -> Vec<String> {
    v.iter().map(output_line).collect()
}

#[test]
fn rpc_outcomes_become_events() {
    let id = Json::UInt(3);
    assert_eq!(
        lines(&answer(Some(&id), Ok("text".into()))),
        vec![
            "{\"event\":{\"delta\":\"text\",\"type\":\"delta\"},\"type\":\"event\"}",
            "{\"event\":{\"stop_reason\":\"stop\",\"type\":\"turn_end\"},\"type\":\"event\"}",
        ]
    );
    assert_eq!(answer(None, Ok(String::new())).len(), 1);
    assert_eq!(
        lines(&answer(Some(&id), Err("bad".into()))),
        vec!["{\"error\":\"bad\",\"id\":3,\"success\":false,\"type\":\"response\"}"]
    );
}

#[test]
fn json_mode_events_are_exact() {
    let m = Model { provider: "p".into(), id: "i".into(), context_window: 1, max_tokens: 1 };
    assert_eq!(
        output_line(&session_start(&Some(m))),
        "{\"model\":\"i\",\"provider\":\"p\",\"type\":\"session_start\"}"
    );
    assert_eq!(session_start(&None).get("model").unwrap().as_str(), Some("unknown"));
    assert_eq!(output_line(&session_end()), "{\"type\":\"session_end\"}");
    assert!(prompt_line(" \t").is_none());
    let (prompt, ev) = prompt_line(" go ").unwrap();
    assert_eq!(prompt, "go");
    assert_eq!(output_line(&ev), "{\"message\":\"go\",\"type\":\"turn_start\"}");
    assert_eq!(
        lines(&turn_end(Ok("x".into()))),
        vec![
            "{\"delta\":\"x\",\"type\":\"delta\"}",
            "{\"stop_reason\":\"stop\",\"type\":\"turn_end\"}",
        ]
    );
    assert_eq!(
        lines(&turn_end(Err("e".into()))),
        vec!["{\"message\":\"e\",\"type\":\"error\"}"]
    );
}

#[test]
fn print_mode_prints_answers() {
    assert_eq!(
        print_prompts(&vec!["a".into(), String::new(), " ".into()], None),
        vec!["a".to_string(), " ".to_string()]
    );
    assert_eq!(
        print_prompts(&vec!["a".into(), "b".into()], Some("text\n")),
        vec!["text\n\na".to_string(), "b".to_string()]
    );
    assert_eq!(print_prompts(&Vec::new(), Some("text")), vec!["text".to_string()]);
    assert_eq!(print_prompts(&vec!["a".into()], Some(" \n")), vec!["a".to_string()]);
    assert_eq!(printed(Ok("x".into())), Printed::Answer("x".into()));
    assert_eq!(printed(Ok(String::new())), Printed::Nothing);
    assert_eq!(printed(Err("e".into())), Printed::Error("错误: e".into()));
}

type Handler = Box<dyn Fn(&Event) -> HookAction>;
type Interceptor = Box<dyn Fn(&str, &Json) -> Option<Json>>;

fn args(provider: &str) -> CommonArgs {
    CommonArgs {
        cwd: ".".into(),
        provider: provider.into(),
        model: None,
        base_url: None,
        api_key: None,
    }
}

#[test]
fn sessions_are_set_up_from_arguments_and_settings() {
    let auth = Json::object()
        .with("provider", Json::of_str("deepseek"))
        .with("default_model", Json::of_str("dm"));
    let creds = Credentials::from_env(None, None, Some("env-key".into()));
    let s = setup_session::<Handler, Interceptor>(&args(""), &auth, &creds).unwrap();
    assert_eq!(s.model.as_ref().unwrap().id, "dm");
    assert_eq!(s.model.as_ref().unwrap().provider, "deepseek");
    match s.provider.as_ref().unwrap() {
        Provider::OpenAiChat(p) => {
            assert_eq!(p.base_url, "https://api.deepseek.com/v1/chat/completions")
        }
        _ => panic!("expected the chat adapter"),
    }
    assert_eq!(s.tool_registry.names().len(), 3);
    assert!(s.system_prompt.starts_with("你是一个有工具能力的智能编程助手。"));
    let s = setup_session::<Handler, Interceptor>(&args("openai"), &no_settings(), &no_keys())
        .unwrap();
    assert_eq!(s.model.unwrap().id, "gpt-4o-mini");
    let s = setup_session::<Handler, Interceptor>(&args("anthropic"), &no_settings(), &no_keys())
        .unwrap();
    assert!(s.model.is_none());
    match setup_session::<Handler, Interceptor>(&args("bogus x"), &auth, &creds) {
        Err(m) => assert_eq!(m, "未配置有效的服务商: bogus x"),
        Ok(_) => panic!("expected an error"),
    }
}
