use agentrust::agent_loop::{AgentLoop, LoopResult, LoopStep, Stamp, TurnStream};
use agentrust::bus::{event_name_of, CompactionReason, Event, HookAction, Hooks};
use agentrust::compaction::{
    can_compact, compact_messages, finish_compaction, serialize_for_summary, CompactionPlan,
    CompactionSettings,
};
use agentrust::context::{ContextBuffer, TokenBudget};
use agentrust::creds::Credentials;
use agentrust::entry::{CompactionDetails, Entry};
use agentrust::error::SessionError;
use agentrust::journal::{journal_lines, Journal, ReadLine};
use agentrust::json::Json;
use agentrust::messages::{ContentBlock, Message, MessageContent, Role};
use agentrust::model::{Model, Usage};
use agentrust::provider::ProviderKind;
use agentrust::request::Part;
use agentrust::session::{AgentSession, Phase, PromptStep};
use agentrust::stream::{StopReason, StreamEvent};
use agentrust::tools::{FnTool, ToolArgs};
use std::sync::atomic::{AtomicUsize, Ordering};
use std::sync::Arc;
use std::cell::Cell;
use std::rc::Rc;

type Handler = Box<dyn Fn(&Event) -> HookAction>;
type Interceptor = Box<dyn Fn(&str, &Json) -> Option<Json>>;
type TestHooks = Hooks<Handler, Interceptor>;
type Session = AgentSession<Handler, Interceptor>;

#[test]
fn hook_handler_runs_on_event() {
    let mut hooks = TestHooks::new();
    let counter = Arc::new(AtomicUsize::new(0));
    let c = counter.clone();
    hooks.on(
        "agent_start",
        Box::new(move |_ev| {
            c.fetch_add(1, Ordering::SeqCst);
            HookAction::Continue
        }),
    );

    let action = hooks.run_handlers(&Event::AgentStart);
    assert_eq!(action, HookAction::Continue);
    assert_eq!(counter.load(Ordering::SeqCst), 1);
}

#[test]
fn blocked_event_stops_chain() {
    let mut hooks = TestHooks::new();
    let counter = Arc::new(AtomicUsize::new(0));
    let c1 = counter.clone();
    let c2 = counter.clone();
    hooks.on(
        "turn_start",
        Box::new(move |_ev| {
            c1.fetch_add(1, Ordering::SeqCst);
            HookAction::Blocked
        }),
    );
    hooks.on(
        "turn_start",
        Box::new(move |_ev| {
            c2.fetch_add(1, Ordering::SeqCst);
            HookAction::Continue
        }),
    );

    let action = hooks.run_handlers(&Event::TurnStart { index: 0 });
    assert_eq!(action, HookAction::Blocked);
    // second handler should NOT have run
    assert_eq!(counter.load(Ordering::SeqCst), 1);
}

#[test]
fn tool_call_interceptor_modifies_args() {
    let mut hooks = TestHooks::new();
    hooks.on_tool_call(Box::new(|name, args| {
        if name == "bash" {
            // inject a wrapper
            let modified = args.clone();
            if modified.is_object() {
                Some(modified.with("wrapped", Json::Bool(true)))
            } else {
                Some(modified)
            }
        } else {
            Some(args.clone())
        }
    }));

    let args = Json::object().with("cmd", Json::of_str("ls"));
    let result = hooks.run_tool_interceptors("bash", &args);
    assert!(result.is_some());
    let result = result.unwrap();
    assert_eq!(result.get("cmd").unwrap().as_str(), Some("ls"));
    assert!(matches!(result.get("wrapped"), Some(Json::Bool(true))));
}

#[test]
fn tool_call_interceptor_blocks() {
    let mut hooks = TestHooks::new();
    hooks.on_tool_call(Box::new(|_name, _args| {
        None // block all tool calls
    }));

    let args = Json::object().with("cmd", Json::of_str("rm -rf /"));
    let result = hooks.run_tool_interceptors("bash", &args);
    assert!(result.is_none());
}

#[test]
fn reload_clears_all_handlers() {
    let mut hooks = TestHooks::new();
    let counter = Arc::new(AtomicUsize::new(0));
    let c = counter.clone();
    hooks.on(
        "agent_start",
        Box::new(move |_ev| {
            c.fetch_add(1, Ordering::SeqCst);
            HookAction::Continue
        }),
    );

    hooks.reload();

    let action = hooks.run_handlers(&Event::AgentStart);
    assert_eq!(action, HookAction::Continue);
    assert_eq!(counter.load(Ordering::SeqCst), 0); // handler was cleared
}

#[test]
fn event_name_mapping() {
    assert_eq!(event_name_of(&Event::AgentStart), "agent_start");
    assert_eq!(
        event_name_of(&Event::ToolExecutionStart {
            tool_call_id: "x".into(),
            tool_name: "bash".into(),
        }),
        "tool_execution_start"
    );
    assert_eq!(event_name_of(&Event::TurnStart { index: 1 }), "turn_start");
}

#[test]
fn handlers_are_kept_per_event() {
    let mut hooks = TestHooks::default();
    assert!(!hooks.has_handlers("agent_start"));
    assert!(!hooks.has_tool_hooks());
    hooks.on("agent_end", Box::new(|_| HookAction::Blocked));
    hooks.on("agent_start", Box::new(|_| HookAction::Continue));
    hooks.on("agent_start", Box::new(|_| HookAction::Handled));
    assert!(hooks.has_handlers("agent_start"));
    assert_eq!(hooks.run_handlers(&Event::AgentStart), HookAction::Handled);
    assert_eq!(hooks.run_handlers(&Event::AgentSettled), HookAction::Continue);
    let args = Json::UInt(3);
    assert_eq!(hooks.run_tool_interceptors("x", &args).unwrap().as_u64(), Some(3));
}

#[test]
fn interceptors_run_in_order() {
    let mut hooks = TestHooks::new();
    hooks.on_tool_call(Box::new(|_, args| Some(Json::UInt(args.as_u64().unwrap() + 1))));
    hooks.on_tool_call(Box::new(|_, args| Some(Json::UInt(args.as_u64().unwrap() * 10))));
    assert_eq!(hooks.run_tool_interceptors("x", &Json::UInt(2)).unwrap().as_u64(), Some(30));
}

// ---- journal ----------------------------------------------------------------------------------

fn label(id: &str, parent: Option<&str>) -> Entry {
    Entry::Label {
        id: id.into(),
        parent_id: parent.map(String::from),
        timestamp: "1".into(),
        target_id: "t".into(),
        label: "l".into(),
    }
}

fn header() -> Entry {
    Entry::SessionHeader {
        version: 3,
        id: "s".into(),
        timestamp: "1".into(),
        cwd: ".".into(),
        parent_session: None,
    }
}

fn checkpoint(id: &str, tail: Option<Json>) -> Entry {
    Entry::Compaction {
        id: id.into(),
        parent_id: None,
        timestamp: "1".into(),
        summary: "s".into(),
        first_kept_entry_id: None,
        tokens_before: 9,
        retained_tail: tail,
        details: Some(CompactionDetails::default()),
    }
}

fn good(e: Entry) -> ReadLine {
    ReadLine { entry: Ok(e), complete: true }
}

#[test]
fn journal_lines_skip_blanks_and_mark_the_tail() {
    let lines = journal_lines("one\r\n\n  \ntwo\nthree");
    let got: Vec<(&str, bool)> = lines.iter().map(|l| (l.text.as_str(), l.complete)).collect();
    assert_eq!(got, vec![("one", true), ("two", true), ("three", false)]);
    assert!(journal_lines("x\n")[0].complete);
    assert!(journal_lines("").is_empty());
}

#[test]
fn journal_opens_from_its_lines() {
    let j = Journal::open(vec![
        good(header()),
        good(label("a", None)),
        good(label("b", Some("a"))),
        ReadLine { entry: Err("cut off".into()), complete: false },
    ])
    .unwrap();
    assert!(matches!(j.header(), Some(Entry::SessionHeader { version: 3, .. })));
    assert_eq!(j.len(), 2);
    assert_eq!(j.leaf(), Some("b"));
    assert_eq!(j.path_to_root(Some("b")), vec!["b", "a"]);
}

#[test]
fn damaged_lines_are_errors() {
    let r = Journal::open(vec![
        good(label("a", None)),
        ReadLine { entry: Err("bad".into()), complete: true },
        ReadLine { entry: Err("worse".into()), complete: true },
    ]);
    match r {
        Err(SessionError::Json(m)) => assert_eq!(m, "bad"),
        _ => panic!("expected an error"),
    }
}

#[test]
fn appending_moves_the_leaf() {
    let mut j = Journal::default();
    assert_eq!(j.append(header()), None);
    assert_eq!((j.len(), j.leaf()), (0, None));
    assert_eq!(j.append(label("a", None)).as_deref(), Some("a"));
    assert_eq!(j.append(label("b", Some("a"))).as_deref(), Some("b"));
    assert_eq!(j.append(label("c", Some("a"))).as_deref(), Some("c"));
    assert_eq!(j.leaf(), Some("c"));
    assert_eq!(j.place("b"), Some(1));
    assert_eq!(j.path_to_root(j.leaf()), vec!["c", "a"]);
    assert_eq!(j.path_to_root(Some("unknown")), vec!["unknown"]);
    assert!(j.path_to_root(None).is_empty());
    assert_eq!(j.entries()[0].parent_id(), None);
}

#[test]
fn circles_have_no_root() {
    let mut j = Journal::new();
    j.append(label("a", Some("b")));
    j.append(label("b", Some("a")));
    j.append(label("c", None));
    assert!(j.find_path_to_root(Some("a")).is_none());
    assert_eq!(j.find_path_to_root(Some("c")).unwrap(), vec!["c"]);
}

#[test]
fn compaction_keeps_from_the_newest_checkpoint() {
    let mut j = Journal::new();
    assert_eq!(j.compact_start(), 0);
    j.append(label("a", None));
    j.append(checkpoint("k1", Some(Json::array(Vec::new()))));
    j.append(label("b", None));
    assert_eq!(j.compact_start(), 1);
    j.append(checkpoint("k2", Some(Json::Null)));
    j.append(checkpoint("k3", None));
    assert_eq!(j.compact_start(), 3);
}

// ---- compaction -------------------------------------------------------------------------------

fn say(id: &str, t: &str) -> Message {
    Message::user(id.into(), t.into(), 0)
}

fn tool_result(content: &str, is_error: bool) -> Message {
    let mut m = say("t", "");
    m.role = Role::ToolResult;
    m.content = MessageContent::ToolResult {
        tool_call_id: "c9".into(),
        content: content.into(),
        is_error,
    };
    m
}

fn model() -> Model {
    Model { provider: "openai".into(), id: "m".into(), context_window: 200, max_tokens: 50 }
}

#[test]
fn compaction_triggers_beyond_the_window() {
    let s = CompactionSettings::default();
    assert_eq!(s.triggered(83_617, 100_000), Some(CompactionReason::Threshold));
    assert_eq!(s.triggered(83_616, 100_000), None);
    assert_eq!(s.triggered(1, 10), Some(CompactionReason::Threshold));
    assert_eq!(s.triggered(0, 10), None);
    let off = CompactionSettings { enabled: false, ..s };
    assert_eq!(off.triggered(u64::MAX, 0), None);
}

#[test]
fn older_messages_are_summarised() {
    let mut answer = say("a", "");
    answer.role = Role::Assistant;
    answer.content = MessageContent::Assistant(vec![
        ContentBlock::Thinking("hm".into()),
        ContentBlock::Text("yes".into()),
        ContentBlock::ToolCall { id: "c".into(), name: "bash".into(), arguments: "{}".into() },
    ]);
    let list = vec![say("1", "hello"), answer, tool_result("out", true), say("4", "tail")];
    assert!(can_compact(&list));
    match compact_messages(&list, 1, &model()) {
        CompactionPlan::Summarize(req) => {
            assert_eq!(req.max_tokens, 2048);
            assert!(matches!(&req.messages[0].parts[..], [Part::Text { text }] if text.ends_with(
                "不要前言。\n\n[User]: hello\n\n[Assistant]: [thinking: hm]yes[tool call: bash({})]\n\n\
                 [ToolResult]: [ERROR] [tool_result for c9]: out"
            )));
        }
        other => panic!("expected a request, got {other:?}"),
    }
    let r = finish_compaction(&list, 1, "short".into());
    assert_eq!(r.summary, "short");
    assert_eq!(r.retained_messages.len(), 1);
    assert_eq!(r.retained_messages[0].id, "4");
    // 5 + (2 + 3 + 2) + 3 + 4 characters
    assert_eq!(r.tokens_before, 4);
}

#[test]
fn short_conversations_are_left_alone() {
    let list = vec![say("1", "hello world")];
    match compact_messages(&list, 1, &model()) {
        CompactionPlan::Nothing(r) => {
            assert_eq!(r.summary, "");
            assert_eq!(r.retained_messages.len(), 1);
            assert_eq!(r.tokens_before, 2);
        }
        other => panic!("expected nothing, got {other:?}"),
    }
}

#[test]
fn long_tool_results_are_cut_in_summaries() {
    let list = vec![tool_result(&"x".repeat(2_001), false)];
    match compact_messages(&list, 0, &model()) {
        CompactionPlan::Summarize(req) => {
            assert!(matches!(&req.messages[0].parts[..], [Part::Text { text }] if text.ends_with(
                &format!("[ToolResult]: [tool_result for c9]: {}...", "x".repeat(2_000))
            )));
        }
        other => panic!("expected a request, got {other:?}"),
    }
    // the cut counts characters, not bytes
    let wide = tool_result(&"你".repeat(1_000), false);
    assert!(serialize_for_summary(&vec![wide], 1).ends_with(&"你".repeat(1_000)));
    let wide = tool_result(&"你".repeat(2_001), false);
    assert_eq!(
        serialize_for_summary(&vec![wide], 1),
        format!("[ToolResult]: [tool_result for c9]: {}...", "你".repeat(2_000))
    );
}

#[test]
fn budget_remembers_the_last_usage() {
    let mut b = TokenBudget::default();
    assert_eq!(b.context_tokens(&Vec::new()), 0);
    b.note_usage(Usage { input: 9, output: 1, cache_read: 0, cache_write: 0, total: 10 });
    assert_eq!(b.context_tokens(&Vec::new()), 9);
    assert_eq!(b.context_tokens(&vec![say("1", "the tail")]), 11);
    // four characters a token, whatever their bytes
    assert_eq!(b.context_tokens(&vec![say("1", &"你".repeat(8))]), 11);
    assert_eq!(b.estimate_of("1"), None);
    let mut c = ContextBuffer::default();
    c.invalidate();
    assert_eq!(c.generation, 1);
}

#[test]
fn credentials_are_kept_by_provider() {
    let c = Credentials::from_env(Some("a".into()), None, Some("d".into()));
    assert_eq!(c.get("anthropic"), Some("a"));
    assert_eq!(c.get("openai"), None);
    assert_eq!(c.get("deepseek"), Some("d"));
}

// ---- prompts ----------------------------------------------------------------------------------

fn stamp(id: &str) -> Stamp {
    Stamp { id: id.into(), timestamp: 7 }
}

fn failure(s: PromptStep) -> String {
    match s {
        PromptStep::Failed(e) => e.message(),
        _ => panic!("expected a failure"),
    }
}

fn ready() -> Session {
    let mut s = Session::open(Journal::new());
    let kind = ProviderKind::parse("openai").unwrap();
    s.set_provider(kind.build(Some("k".into()), None, &Json::object()));
    s.set_model(model());
    s.set_system_prompt("sys".into());
    s.register_tool(&FnTool::new("t".into(), "t: does it".into()));
    s
}

#[test]
fn prompts_need_a_provider_and_a_model() {
    let mut s = Session::open(Journal::new());
    assert_eq!(
        failure(s.begin_prompt("hi".into(), stamp("u1"), "10".into())),
        "核心错误: 工具错误: 未配置服务商"
    );
    assert_eq!(s.journal.len(), 1);
    let kind = ProviderKind::parse("openai").unwrap();
    s.set_provider(kind.build(None, None, &Json::object()));
    assert_eq!(
        failure(s.begin_prompt("hi".into(), stamp("u2"), "10".into())),
        "核心错误: 工具错误: 未配置模型"
    );
    assert!(matches!(
        s.take_events()[..],
        [Event::TurnStart { index: 1 }, Event::TurnStart { index: 2 }]
    ));
    assert_eq!(s.phase, Phase::Idle);
}

fn answer(id: &str, t: &str) -> Message {
    let mut m = say(id, "");
    m.role = Role::Assistant;
    m.content = MessageContent::Assistant(vec![
        ContentBlock::Thinking("hm".into()),
        ContentBlock::Text(t.into()),
    ]);
    m
}

#[test]
fn a_prompt_is_recorded_and_answered() {
    let mut s = ready();
    let config = match s.begin_prompt("hi".into(), stamp("u1"), "10".into()) {
        PromptStep::Run(c) => c,
        _ => panic!("expected a run"),
    };
    assert_eq!(config.messages.len(), 1);
    assert_eq!((config.max_turns, config.max_tokens), (10, 50));
    assert_eq!(config.system, "sys");
    assert_eq!(config.tools[0].description, "does it");
    assert_eq!(s.phase, Phase::Streaming);
    let result = LoopResult {
        messages: vec![answer("m1", "Hel"), say("r1", "tool output"), answer("m2", "lo")],
        usage: Usage { input: 4, output: 2, cache_read: 0, cache_write: 0, total: 6 },
        stop_reason: StopReason::Stop,
    };
    assert_eq!(s.finish_prompt("hi".into(), result, stamp("s1"), "11"), "Hello");
    s.settle();
    assert_eq!(s.phase, Phase::Idle);
    assert_eq!(s.journal.len(), 3);
    assert_eq!(s.journal.path_to_root(s.journal.leaf()), vec!["m2", "m1", "u1"]);
    assert_eq!(s.tokens.context_tokens(&Vec::new()), 4);
    assert_eq!(s.state.messages.len(), 1);
    assert!(matches!(
        s.take_events()[..],
        [
            Event::TurnStart { index: 1 },
            Event::AgentStart,
            Event::TurnEnd { index: 3 },
            Event::AgentSettled,
        ]
    ));
    match s.begin_prompt("more".into(), stamp("u2"), "12".into()) {
        PromptStep::Run(c) => {
            let ids: Vec<&str> = c.messages.iter().map(|m| m.id.as_str()).collect();
            assert_eq!(ids, vec!["u1", "m1", "m2", "u2"]);
        }
        _ => panic!("expected a run"),
    }
}

#[test]
fn prompts_follow_each_other_in_the_journal() {
    let mut s = ready();
    for (k, said) in [(1, "A"), (2, "B")] {
        let user = Stamp { id: format!("u{k}"), timestamp: 7 };
        let config = match s.begin_prompt(format!("p{k}"), user, "10".into()) {
            PromptStep::Run(c) => c,
            _ => panic!("expected a run"),
        };
        let mut run = AgentLoop::new(config);
        assert!(matches!(run.begin_turn(false), LoopStep::Call(_)));
        let mut turn = TurnStream::new();
        turn.feed(Ok(StreamEvent::TextDelta { delta: said.into() }), false);
        turn.feed(Ok(StreamEvent::Done { stop_reason: StopReason::Stop }), false);
        let id = Stamp { id: format!("a{k}"), timestamp: 8 };
        let result = match run.complete_turn(turn, id, "mock") {
            LoopStep::Finished(r) => r,
            other => panic!("expected an end, got {other:?}"),
        };
        assert_eq!(s.finish_prompt(format!("p{k}"), result, stamp("s"), "11"), said);
        s.settle();
        assert_eq!(s.phase, Phase::Idle);
        assert_eq!(s.journal.len(), 2 * k);
    }
    let ids: Vec<_> = s.journal.entries().iter().map(|e| e.id()).collect();
    assert_eq!(ids, vec![Some("u1"), Some("a1"), Some("u2"), Some("a2")]);
    let parents: Vec<_> = s.journal.entries().iter().map(|e| e.parent_id()).collect();
    assert_eq!(parents, vec![None, Some("u1"), Some("a1"), Some("u2")]);
    assert_eq!(s.journal.leaf(), Some("a2"));
}

#[test]
fn hooks_can_keep_the_agent_from_starting() {
    for action in [HookAction::Blocked, HookAction::Handled] {
        let mut s = ready();
        s.hooks.on("agent_start", Box::new(move |_| action));
        assert!(matches!(
            s.begin_prompt("hi".into(), stamp("u1"), "10".into()),
            PromptStep::Skipped
        ));
        assert!(matches!(s.take_events()[..], [Event::TurnStart { .. }]));
        assert_eq!(s.run_hooks(&Event::AgentStart), action);
    }
}

#[test]
fn settling_runs_the_handlers_whatever_they_answer() {
    let mut s = ready();
    let runs = Rc::new(Cell::new(0));
    let seen = runs.clone();
    s.hooks.on(
        "agent_settled",
        Box::new(move |_| {
            seen.set(seen.get() + 1);
            HookAction::Blocked
        }),
    );
    s.settle();
    assert_eq!(runs.get(), 1);
    assert!(matches!(s.take_events()[..], [Event::TurnEnd { index: 0 }, Event::AgentSettled]));
    assert_eq!(s.phase, Phase::Idle);
}

#[test]
fn tool_calls_are_intercepted() {
    let call = || ToolArgs {
        call_id: "c".into(),
        name: "bash".into(),
        arguments: Json::object(),
    };
    let mut s = ready();
    assert!(!s.has_tool_hooks());
    assert!(s.intercept(call()).unwrap().arguments.is_object());
    s.hooks.on_tool_call(Box::new(|_, a| Some(a.clone().with("safe", Json::Bool(true)))));
    let got = s.intercept(call()).unwrap();
    assert_eq!(got.call_id, "c");
    assert!(matches!(got.arguments.get("safe"), Some(Json::Bool(true))));
    s.hooks.on_tool_call(Box::new(|_, _| None));
    assert!(s.has_tool_hooks());
    assert_eq!(
        s.intercept(call()).unwrap_err().message(),
        "工具错误: 工具 'bash' 被钩子拦截"
    );
}

#[test]
fn sessions_publish_queues_and_generations() {
    let mut s = ready();
    s.publish_queues(2, 1);
    assert!(matches!(
        s.take_events()[..],
        [Event::QueueUpdate { steering: 2, follow_up: 1 }]
    ));
    assert!(s.take_events().is_empty());
    s.invalidate_context();
    assert_eq!(s.context.generation, 1);
}
