use agentrust::agent_loop::{
    convert_messages_for_provider, AgentLoop, LoopConfig, LoopResult, LoopStep, Stamp, StreamStep,
    TurnStream,
};
use agentrust::builtins::{
    bash_overflow, bash_result, read_result, register_builtins, stage_failed, tool_spec_of,
    tool_specs_from_registry, write_output, BashTool, ReadFileTool, Stage, WriteFileTool,
};
use agentrust::error::{AiError, CoreError, SessionError};
use agentrust::ids::uuid_str;
use agentrust::json::Json;
use agentrust::messages::{ContentBlock, Message, MessageContent, Role};
use agentrust::model::{Model, ThinkingLevel, Usage};
use agentrust::request::Part;
use agentrust::rpc::output_line;
use agentrust::state::AgentState;
use agentrust::stream::{StopReason, StreamEvent, StreamReader};
use agentrust::tools::{FnTool, ResultSlots, Tool, ToolArgs, ToolOutput, ToolRegistry};
use std::collections::VecDeque;

fn stamp(id: &str) -> Stamp {
    Stamp { id: id.into(), timestamp: 5 }
}

fn config(max_turns: u32) -> LoopConfig {
    LoopConfig {
        model: Model {
            provider: "mock".into(),
            id: "test".into(),
            context_window: 10000,
            max_tokens: 100,
        },
        system: "You are a test".into(),
        messages: Vec::new(),
        tools: Vec::new(),
        max_tokens: 100,
        thinking: ThinkingLevel::Off,
        max_turns,
    }
}

fn usage(input: u64, output: u64) -> Usage {
    Usage { input, output, cache_read: 0, cache_write: 0, total: input + output }
}

fn received(items: Vec<Result<StreamEvent, AiError>>) -> StreamReader {
    StreamReader::new(VecDeque::from(items))
}

fn finished(step: LoopStep) -> LoopResult {
    match step {
        LoopStep::Finished(r) => r,
        other => panic!("expected the end, got {other:?}"),
    }
}

#[test]
fn simple_text_response() {
    let mut run = AgentLoop::new(config(5));
    let req = match run.begin_turn(false) {
        LoopStep::Call(req) => req,
        other => panic!("expected a call, got {other:?}"),
    };
    assert_eq!(req.system, "You are a test");
    assert_eq!(req.max_tokens, 100);
    assert!(req.messages.is_empty());
    let answer = TurnStream::read(received(vec![
        Ok(StreamEvent::TextDelta { delta: "Hello, world!".into() }),
        Ok(StreamEvent::Usage { usage: usage(10, 5) }),
        Ok(StreamEvent::Done { stop_reason: StopReason::Stop }),
    ]))
    .unwrap();
    let result = finished(run.complete_turn(answer, stamp("m1"), "mock"));

    assert_eq!(result.messages.len(), 1);
    assert_eq!(result.stop_reason, StopReason::Stop);
    assert_eq!(result.usage.input, 10);
    assert_eq!(result.usage.output, 5);
    let m = &result.messages[0];
    assert_eq!(m.id, "m1");
    assert_eq!(m.provider.as_deref(), Some("mock"));
    assert_eq!(m.model.as_deref(), Some("test"));
    assert!(matches!(&m.content, MessageContent::Assistant(b)
        if matches!(&b[..], [ContentBlock::Text(t)] if t == "Hello, world!")));
}

fn tool_turn(run: &mut AgentLoop, id: &str) -> Vec<ToolArgs> {
    let mut s = TurnStream::new();
    for ev in [
        StreamEvent::ToolCallArgsDelta { id: "0".into(), delta: "dropped".into() },
        StreamEvent::ThinkingDelta { delta: "plan".into() },
        StreamEvent::ToolCallStarted { id: "a".into(), name: "bash".into() },
        StreamEvent::ToolCallArgsDelta { id: "0".into(), delta: "{\"command\":".into() },
        StreamEvent::ToolCallArgsDelta { id: "0".into(), delta: "\"ls\"}".into() },
        StreamEvent::ToolCallDone { id: "a".into() },
        StreamEvent::ToolCallStarted { id: "b".into(), name: "nope".into() },
        StreamEvent::ToolCallArgsDelta { id: "1".into(), delta: "{bad".into() },
        StreamEvent::Usage { usage: usage(7, 3) },
    ] {
        assert!(matches!(s.feed(Ok(ev), false), StreamStep::More));
    }
    let end = StreamEvent::Done { stop_reason: StopReason::ToolUse };
    assert!(matches!(s.feed(Ok(end), false), StreamStep::Complete));
    match run.complete_turn(s, stamp(id), "mock") {
        LoopStep::RunTools(calls) => calls,
        other => panic!("expected tools, got {other:?}"),
    }
}

#[test]
fn tool_results_feed_the_next_turn() {
    let mut c = config(5);
    c.messages.push(Message::user("u".into(), "hi".into(), 1));
    let mut run = AgentLoop::new(c);
    assert!(matches!(run.begin_turn(false), LoopStep::Call(_)));
    let calls = tool_turn(&mut run, "m1");
    assert_eq!(calls.len(), 2);
    assert_eq!((calls[0].call_id.as_str(), calls[0].name.as_str()), ("a", "bash"));
    assert_eq!(calls[0].arguments.get("command").unwrap().as_str(), Some("ls"));
    assert!(calls[1].arguments.is_null());
    let ok = ToolOutput { content: "file".into(), full_output_path: None, is_error: false };
    run.tool_results(vec![
        (stamp("r1"), Ok(ok)),
        (stamp("r2"), Err(CoreError::Tool("unknown tool nope".into()))),
    ]);
    let req = match run.begin_turn(false) {
        LoopStep::Call(req) => req,
        other => panic!("expected a call, got {other:?}"),
    };
    assert_eq!(req.messages.len(), 4);
    assert_eq!(req.messages[0].role, "user");
    assert_eq!(req.messages[1].role, "assistant");
    assert!(matches!(&req.messages[1].parts[..],
        [Part::Thinking { .. }, Part::ToolCall { id, .. }, Part::ToolCall { .. }] if id == "a"));
    assert!(matches!(&req.messages[2].parts[..], [Part::Text { text }] if text == "file"));
    assert!(matches!(&req.messages[3].parts[..],
        [Part::Text { text }] if text == "[error] 工具错误: unknown tool nope"));
    let answer = TurnStream::of_whole("done".into(), String::new(), usage(1, 1));
    let result = finished(run.complete_turn(answer, stamp("m2"), "mock"));
    // only the messages of this run
    let ids: Vec<&str> = result.messages.iter().map(|m| m.id.as_str()).collect();
    assert_eq!(ids, vec!["m1", "r1", "r2", "m2"]);
    assert_eq!((result.usage.input, result.usage.output), (8, 4));
}

#[test]
fn turns_are_limited() {
    let mut run = AgentLoop::new(config(1));
    assert!(matches!(run.begin_turn(false), LoopStep::Call(_)));
    tool_turn(&mut run, "m1");
    run.tool_results(Vec::new());
    let result = finished(run.begin_turn(false));
    assert_eq!(result.stop_reason, StopReason::Length);
    assert_eq!(result.messages.len(), 1);
    assert_eq!(finished(AgentLoop::new(config(0)).begin_turn(false)).messages.len(), 0);
}

#[test]
fn cancellation_and_errors_fail_the_run() {
    let mut run = AgentLoop::new(config(5));
    assert!(matches!(run.begin_turn(true), LoopStep::Failed(CoreError::Cancelled)));
    let mut s = TurnStream::new();
    let ev = StreamEvent::TextDelta { delta: "x".into() };
    assert!(matches!(s.feed(Ok(ev), true), StreamStep::Failed(CoreError::Cancelled)));
    let e = s.feed(Err(AiError::Stream("cut".into())), false);
    assert!(matches!(e, StreamStep::Failed(CoreError::Ai(AiError::Stream(_)))));
    let read = TurnStream::read(received(vec![Err(AiError::Other("no".into()))]));
    assert!(read.is_err());
}

#[test]
fn events_behind_the_end_are_not_read() {
    let answer = TurnStream::read(received(vec![
        Ok(StreamEvent::TextDelta { delta: "a".into() }),
        Ok(StreamEvent::Done { stop_reason: StopReason::Stop }),
        Ok(StreamEvent::TextDelta { delta: "b".into() }),
        Err(AiError::Other("late".into())),
    ]))
    .unwrap();
    let result = finished(AgentLoop::new(config(1)).complete_turn(answer, stamp("m"), "p"));
    assert!(matches!(&result.messages[0].content, MessageContent::Assistant(b)
        if matches!(&b[..], [ContentBlock::Text(t)] if t == "a")));
}

#[test]
fn messages_are_converted_for_the_provider() {
    let mut image = Message::user("i".into(), String::new(), 0);
    image.content = MessageContent::Image { mime: "image/png".into(), data: vec![1, 2, 3] };
    let mut result = Message::user("t".into(), String::new(), 0);
    result.role = Role::ToolResult;
    result.content = MessageContent::ToolResult {
        tool_call_id: "c".into(),
        content: "out".into(),
        is_error: true,
    };
    let sent = convert_messages_for_provider(&vec![image, result]);
    assert!(matches!(&sent[0].parts[..],
        [Part::Text { text }] if text == "[image: image/png, 3 bytes]"));
    assert_eq!(sent[1].role, "tool");
    assert!(matches!(&sent[1].parts[..],
        [Part::ToolResult { tool_call_id, is_error: true, .. }] if tool_call_id == "c"));
}

#[test]
fn ids_are_hexadecimal_groups() {
    assert_eq!(uuid_str(0, 0), "0000000000000000-0000-4000-8000-000000000000");
    assert_eq!(
        uuid_str((0x1_0002u128 << 64) + 0xabcdef, 0xffff_f123),
        "0000000000abcdef-0002-4123-bfff-0000fffff123"
    );
}

#[test]
fn core_and_session_messages_are_exact() {
    assert_eq!(CoreError::Ai(AiError::Other("x".into())).message(), "AI 错误: x");
    assert_eq!(CoreError::Cancelled.message(), "已取消");
    assert_eq!(
        CoreError::InvalidToolCall { name: "n".into(), message: "m".into() }.message(),
        "无效的工具调用 n: m"
    );
    assert_eq!(
        CoreError::ContextOverflow { used: 3, window: 2, reserve: 1 }.message(),
        "上下文溢出，需要压缩（已用 3 token，窗口 2，保留 1）"
    );
    assert_eq!(SessionError::Io("i".into()).message(), "IO 错误: i");
    assert_eq!(SessionError::Json("j".into()).message(), "JSON 错误: j");
    assert_eq!(SessionError::Core(CoreError::Tool("t".into())).message(), "核心错误: 工具错误: t");
    assert_eq!(
        SessionError::Corrupt { line: 4, message: "m".into() }.message(),
        "会话文件损坏，第 4 行: m"
    );
}

#[test]
fn state_collects_messages() {
    let mut s = AgentState::default();
    assert_eq!(s.thinking_level, ThinkingLevel::Medium);
    s.push_message(Message::user("a".into(), "x".into(), 1));
    let snapshot = s.clone();
    s.push_message(Message::user("b".into(), "y".into(), 2));
    assert_eq!(snapshot.messages.len(), 1);
    assert_eq!(snapshot.messages[0].id, "a");
    assert_eq!(s.messages.len(), 2);
    assert_eq!(s.messages[1].id, "b");
}

// ---- tools ----------------------------------------------------------------------------------

fn call(name: &str, arguments: Json) -> ToolArgs {
    ToolArgs { call_id: "c".into(), name: name.into(), arguments }
}

#[test]
fn registry_keeps_one_tool_per_name() {
    let mut r = ToolRegistry::default();
    assert!(r.names().is_empty());
    register_builtins(&mut r);
    r.register(&FnTool::new("bash".into(), "bash: another".into()));
    r.register(&FnTool::new("extra".into(), "no colon".into()));
    let mut names = r.names();
    names.sort();
    assert_eq!(names, vec!["bash", "extra", "read_file", "write_file"]);
    assert_eq!(r.get("bash").as_deref(), Some("bash: another"));
    assert_eq!(r.get("missing"), None);
    let copy = r.clone();
    r.register(&FnTool::new("later".into(), "later: x".into()));
    assert_eq!(copy.describe_all().len(), 4);
    assert_eq!(r.pairs().len(), 5);
}

#[test]
fn unknown_tools_fail_before_they_run() {
    let mut r = ToolRegistry::default();
    register_builtins(&mut r);
    assert!(r.preflight(&call("bash", Json::Null)).is_ok());
    let e = r.preflight(&call("ghost", Json::Null)).unwrap_err();
    assert_eq!(e.message(), "工具错误: unknown tool ghost");
}

fn output(t: &str) -> Result<ToolOutput, CoreError> {
    Ok(ToolOutput { content: t.into(), full_output_path: None, is_error: false })
}

#[test]
fn results_come_in_source_order() {
    let mut slots = ResultSlots::new(3);
    slots.report(2, output("two"));
    slots.report(0, output("zero"));
    slots.report(1, output("one"));
    let got: Vec<String> = slots.into_results().into_iter().map(|r| r.unwrap().content).collect();
    assert_eq!(got, vec!["zero", "one", "two"]);
}

#[test]
fn lost_tasks_become_errors() {
    let mut slots = ResultSlots::new(3);
    slots.report(0, output("zero"));
    slots.panicked("boom");
    let got = slots.into_results();
    assert!(got[0].is_ok());
    assert_eq!(got[1].as_ref().unwrap_err().message(), "工具错误: task panicked: boom");
    assert_eq!(got[2].as_ref().unwrap_err().message(), "工具错误: task did not report");
    let mut full = ResultSlots::new(1);
    full.report(0, output("zero"));
    full.panicked("late");
    assert!(full.into_results()[0].is_err());
}

#[test]
fn panics_leave_other_results_alone() {
    // the second of three calls panics, before the others report
    let mut slots = ResultSlots::new(3);
    slots.panicked("boom");
    slots.report(2, output("two"));
    slots.report(0, output("zero"));
    let got = slots.into_results();
    assert_eq!(got[0].as_ref().unwrap().content, "zero");
    assert!(got[1].is_err());
    assert_eq!(got[2].as_ref().unwrap().content, "two");
}

#[test]
fn tool_arguments_are_checked() {
    let args = Json::object().with("command", Json::of_str("ls")).with("cwd", Json::of_str("/"));
    let (command, cwd) = BashTool.plan(&call("bash", args)).unwrap();
    assert_eq!((command.as_str(), cwd.as_deref()), ("ls", Some("/")));
    let e = BashTool.plan(&call("bash", Json::Null)).unwrap_err();
    assert_eq!(e.message(), "工具错误: 缺少 'command' 参数");
    let path = || Json::object().with("path", Json::of_str("f"));
    assert_eq!(ReadFileTool.plan(&call("read_file", path()), false).unwrap(), "f");
    assert!(matches!(
        ReadFileTool.plan(&call("read_file", path()), true),
        Err(CoreError::Cancelled)
    ));
    let e = WriteFileTool.plan(&call("write_file", path()), true).unwrap_err();
    assert_eq!(e.message(), "工具错误: 缺少 'content' 参数");
    let both = path().with("content", Json::of_str("x"));
    let (p, c) = WriteFileTool.plan(&call("write_file", both), false).unwrap();
    assert_eq!((p.as_str(), c.as_str()), ("f", "x"));
}

fn bash(out: &[u8], err: &[u8], code: Option<i32>) -> String {
    bash_result(out, err, code, code == Some(0), false, None).unwrap().unwrap().content
}

#[test]
fn bash_output_is_composed() {
    assert_eq!(bash(b"out", b"", Some(0)), "out");
    assert_eq!(bash(b"", b"err", Some(1)), "err");
    assert_eq!(bash(b"out", b"err", Some(0)), "out\n--- stderr ---\nerr");
    assert_eq!(bash(b"", b"", Some(3)), "(exit code: 3)");
    assert_eq!(bash(b"", b"", None), "(exit code: -1)");
    assert_eq!(bash(b"\xff", b"", Some(0)), "\u{fffd}");
    let failed = bash_result(b"x", b"", Some(1), false, false, Some("/f".into())).unwrap().unwrap();
    assert!(failed.is_error);
    assert_eq!(failed.full_output_path, None);
    assert!(matches!(
        bash_result(b"x", b"", Some(0), true, true, None),
        Some(Err(CoreError::Cancelled))
    ));
}

#[test]
fn long_output_is_cut_at_a_character() {
    let exact = "a".repeat(50_000);
    assert_eq!(bash(exact.as_bytes(), b"", Some(0)), exact);
    let long = "a".repeat(50_001);
    assert_eq!(
        bash(long.as_bytes(), b"", Some(0)),
        format!("{exact}\n... (output truncated)")
    );
    assert_eq!(bash_overflow(exact.as_bytes(), b"", Some(0)), None);
    assert_eq!(bash_overflow(long.as_bytes(), b"", Some(0)), Some(long.clone()));
    let kept = bash_result(long.as_bytes(), b"", Some(0), true, false, Some("/f".into()));
    assert_eq!(kept.unwrap().unwrap().full_output_path.as_deref(), Some("/f"));
    let inside = format!("{}é", "a".repeat(49_999));
    assert!(bash_result(inside.as_bytes(), b"x", Some(0), true, false, None).is_none());
}

#[test]
fn long_files_are_cut_at_a_character() {
    let short = read_result("short", Some("/f".into())).unwrap();
    assert_eq!((short.content.as_str(), short.full_output_path), ("short", None));
    let long = "b".repeat(100_007);
    let cut = read_result(&long, Some("/f".into())).unwrap();
    assert_eq!(cut.full_output_path.as_deref(), Some("/f"));
    assert_eq!(
        cut.content,
        format!(
            "{}...\n(文件过长，已截断，原始大小: 100007 字节)",
            "b".repeat(100_000)
        )
    );
    assert!(read_result(&format!("{}你好", "b".repeat(99_999)), None).is_none());
    assert_eq!(write_output("/p", "你好").content, "已写入 6 字节到 /p");
    assert_eq!(stage_failed(Stage::Read, "gone").message(), "工具错误: 读取失败: gone");
}

#[test]
fn tools_are_described_with_schemas() {
    let t = tool_spec_of("bash: Execute: a command ");
    assert_eq!((t.name.as_str(), t.description.as_str()), ("bash", "Execute: a command"));
    assert_eq!(
        output_line(&t.input_schema),
        "{\"properties\":{\"command\":{\"description\":\"The bash command to execute\",\
         \"type\":\"string\"},\"cwd\":{\"description\":\"Working directory (optional)\",\
         \"type\":\"string\"}},\"required\":[\"command\"],\"type\":\"object\"}"
    );
    let w = tool_spec_of(WriteFileTool.describe().as_str());
    assert_eq!(output_line(w.input_schema.get("required").unwrap()), "[\"path\",\"content\"]");
    let other = tool_spec_of("plain");
    assert_eq!(other.description, "");
    assert_eq!(output_line(&other.input_schema), "{\"properties\":{},\"type\":\"object\"}");
    let mut r = ToolRegistry::default();
    register_builtins(&mut r);
    let mut names: Vec<String> =
        tool_specs_from_registry(&r).into_iter().map(|t| t.name).collect();
    names.sort();
    assert_eq!(names, vec!["bash", "read_file", "write_file"]);
}
