use agentrust::anthropic::{conv_message, request_body, AnthropicParser, AnthropicProvider};
use agentrust::error::AiError;
use agentrust::json::Json;
use agentrust::model::{Model, ThinkingLevel};
use agentrust::openai::{
    chat_body, ChatCompletionsParser, OpenAiChatProvider, OpenAiResponsesProvider,
    PendingProvider,
};
use agentrust::provider::{
    auth_file_path, merge_auth_json, read_auth_json, write_auth_json, ApiVariant, AuthPath,
    ChatProvider, Provider, ProviderClient, ProviderKind, Wire,
};
use agentrust::request::{ChatMessage, Part, ProviderRequest, ToolSpec};
use agentrust::rpc::output_line;
use agentrust::stream::{StopReason, StreamEvent};

fn model(provider: &str) -> Model {
    Model { provider: provider.into(), id: "m".into(), context_window: 1, max_tokens: 1 }
}

fn none() -> Json {
    Json::object()
}

#[test]
fn kind_parse_and_id() {
    assert_eq!(
        ProviderKind::parse("anthropic"),
        Some(ProviderKind { vendor: "anthropic", api: ApiVariant::Messages })
    );
    assert_eq!(
        ProviderKind::parse("openai chat"),
        Some(ProviderKind { vendor: "openai", api: ApiVariant::Chat })
    );
    assert_eq!(
        ProviderKind::parse("openai chat-resp"),
        Some(ProviderKind { vendor: "openai", api: ApiVariant::Responses })
    );
    assert_eq!(ProviderKind::parse("openai responses").unwrap().api, ApiVariant::Responses);
    assert_eq!(ProviderKind::parse("deepseek chat").unwrap().vendor, "deepseek");
    assert_eq!(ProviderKind::parse("bogus"), None);
    assert_eq!(ProviderKind::parse("openai chat extra"), None);
    assert_eq!(ProviderKind::parse("anthropic").unwrap().display(), "anthropic messages");
    assert_eq!(ProviderKind::parse("openai").unwrap().display(), "openai chat");
}

#[test]
fn kinds_are_read_in_any_case_and_spacing() {
    assert_eq!(ProviderKind::parse("  OPENAI\tRESP "), ProviderKind::parse("openai responses"));
    assert_eq!(ProviderKind::parse("deepseek responses"), None);
    assert_eq!(ProviderKind::parse("anthropic chat"), None);
    assert_eq!(ProviderKind::parse(""), None);
    for s in ["anthropic messages", "openai chat", "openai responses", "deepseek chat"] {
        let k = ProviderKind::parse(s).unwrap();
        assert_eq!(k.display(), s);
        assert_eq!(ProviderKind::parse(&k.display()), Some(k));
    }
}

#[test]
fn resolve_key_prefers_override() {
    let k = ProviderKind::parse("anthropic").unwrap();
    let env = || Some("env-key".to_string());
    assert_eq!(k.resolve_key(Some("cli-key"), &none(), env()).as_deref(), Some("cli-key"));
    assert_eq!(k.resolve_key(Some(""), &none(), env()).as_deref(), Some("env-key"));
}

#[test]
fn settings_come_between_override_and_environment() {
    let k = ProviderKind::parse("openai").unwrap();
    let auth = none().with(
        "openai",
        none().with("api_key", Json::of_str("file-key")).with("base_url", Json::of_str("http://x")),
    );
    assert_eq!(k.resolve_key(None, &auth, Some("env".into())).as_deref(), Some("file-key"));
    assert_eq!(k.resolve_key(Some("cli"), &auth, None).as_deref(), Some("cli"));
    assert_eq!(k.resolve_base_url(None, &auth), "http://x");
    assert_eq!(k.resolve_base_url(Some(""), &auth), "http://x");
    assert_eq!(k.resolve_base_url(Some("http://y"), &auth), "http://y");
    let d = ProviderKind::parse("deepseek").unwrap();
    assert_eq!(d.resolve_key(None, &auth, None), None);
    assert_eq!(d.resolve_base_url(None, &auth), "https://api.deepseek.com/v1");
    assert_eq!(d.env_key_var(), "DEEPSEEK_API_KEY");
    assert_eq!(k.env_key_var(), "OPENAI_API_KEY");
}

#[test]
fn join_api_path_handles_prefix_and_full() {
    let chat = ProviderKind::parse("openai chat").unwrap();
    // prefix only -> append path
    assert_eq!(
        chat.join_api_path("https://api.openai.com/v1"),
        "https://api.openai.com/v1/chat/completions"
    );
    // full path already present -> unchanged
    assert_eq!(
        chat.join_api_path("https://api.openai.com/v1/chat/completions"),
        "https://api.openai.com/v1/chat/completions"
    );
    // trailing slash tolerated
    assert_eq!(
        chat.join_api_path("http://127.0.0.1:18081/v1/"),
        "http://127.0.0.1:18081/v1/chat/completions"
    );
    let messages = ProviderKind::parse("anthropic").unwrap();
    assert_eq!(
        messages.join_api_path("https://api.anthropic.com/v1"),
        "https://api.anthropic.com/v1/messages"
    );
    let responses = ProviderKind::parse("openai responses").unwrap();
    assert_eq!(
        responses.join_api_path("https://api.openai.com/v1"),
        "https://api.openai.com/v1/responses"
    );
}

#[test]
fn joining_twice_changes_nothing_but_for_slashes_alone() {
    let k = ProviderKind::parse("openai chat").unwrap();
    let once = k.join_api_path("http://h/v1//");
    assert_eq!(once, "http://h/v1/chat/completions");
    assert_eq!(k.join_api_path(&once), once);
    let from_nothing = k.join_api_path("//");
    assert_eq!(from_nothing, "https://api.openai.com/v1");
    assert_eq!(k.join_api_path(&from_nothing), "https://api.openai.com/v1/chat/completions");
}

#[test]
fn setup_swaps_by_kind() {
    let mut c = ProviderClient::new();
    assert!(c.provider_for(&model("anthropic")).is_none());
    let kind = ProviderKind::parse("anthropic").unwrap();
    c.setup(kind, Some("k1".into()), None, &none());
    assert!(c.provider_for(&model("anthropic")).is_some());
    // re-setup keeps exactly one anthropic provider
    c.setup(kind, Some("k2".into()), None, &none());
    assert_eq!(c.count(), 1);
    assert_eq!(c.provider_for(&model("anthropic")).unwrap().id(), "anthropic");
}

fn url_of(p: &Provider) -> String {
    match p {
        Provider::Anthropic(a) => a.base_url.clone(),
        Provider::OpenAiChat(o) => o.base_url.clone(),
        Provider::OpenAiResponses(o) => o.base_url.clone(),
        Provider::Pending(_) => String::new(),
    }
}

#[test]
fn setup_serves_the_vendor_that_was_set_up_last() {
    let mut c = ProviderClient::default();
    let deepseek = ProviderKind::parse("deepseek").unwrap();
    let openai = ProviderKind::parse("openai").unwrap();
    let url = |c: &ProviderClient, v: &str| url_of(c.provider_for(&model(v)).unwrap());
    c.setup(ProviderKind::parse("anthropic").unwrap(), None, None, &none());
    c.setup(deepseek, Some("k".into()), Some("http://one".into()), &none());
    c.setup(deepseek, Some("k".into()), Some("http://two".into()), &none());
    assert_eq!(c.count(), 2);
    assert_eq!(url(&c, "deepseek"), "http://two/chat/completions");
    // without a provider of its own, a vendor's models go to the first that serves them
    assert_eq!(url(&c, "openai"), "http://two/chat/completions");
    // another vendor's setup leaves it alone, and each serves its own vendor's models
    c.setup(openai, Some("k".into()), None, &none());
    assert_eq!(c.count(), 3);
    assert_eq!(url(&c, "deepseek"), "http://two/chat/completions");
    assert_eq!(url(&c, "openai"), "https://api.openai.com/v1/chat/completions");
    c.setup(deepseek, Some("k".into()), Some("http://three".into()), &none());
    assert_eq!(c.count(), 3);
    assert_eq!(url(&c, "openai"), "https://api.openai.com/v1/chat/completions");
    assert_eq!(url(&c, "deepseek"), "http://three/chat/completions");
    assert!(c.provider_for(&model("anthropic")).is_some());
    assert!(c.provider_for(&model("mystery")).is_none());
}

#[test]
fn registered_providers_are_asked_in_order() {
    let mut c = ProviderClient::new();
    c.register(Provider::OpenAiResponses(OpenAiResponsesProvider::new(
        "http://a".into(),
        "k".into(),
    )));
    c.register(Provider::OpenAiChat(OpenAiChatProvider::new("http://b".into(), "k".into())));
    assert_eq!(url_of(c.provider_for(&model("openai")).unwrap()), "http://a");
    assert_eq!(url_of(c.provider_for(&model("deepseek")).unwrap()), "http://b");
}

#[test]
fn write_then_read_roundtrip() {
    let patch = none()
        .with("provider", Json::of_str("openai chat"))
        .with(
            "openai",
            none()
                .with("api_key", Json::of_str("sk-test"))
                .with("base_url", Json::of_str("http://127.0.0.1:9")),
        )
        .with("default_model", Json::of_str("gpt-4o-mini"));
    let written = write_auth_json(None, &patch);

    let auth = read_auth_json(Some(&written));
    let kind = ProviderKind::parse("openai chat").unwrap();
    assert_eq!(kind.resolve_key(None, &auth, None).as_deref(), Some("sk-test"));
    assert_eq!(kind.resolve_base_url(None, &auth), "http://127.0.0.1:9".to_string());
    assert_eq!(auth.get("default_model").unwrap().as_str(), Some("gpt-4o-mini"));
}

#[test]
fn settings_merge_member_by_member() {
    let old = "{\"openai\":{\"api_key\":\"a\"},\"keep\":7,\"default_model\":\"x\"}";
    let patch = none().with("default_model", Json::of_str("y")).with("openai", none());
    let text = write_auth_json(Some(old), &patch);
    let auth = read_auth_json(Some(&text));
    assert_eq!(auth.get("keep").unwrap().as_u64(), Some(7));
    assert_eq!(auth.get("default_model").unwrap().as_str(), Some("y"));
    assert!(auth.get("openai").unwrap().get("api_key").is_none());
    let fresh = merge_auth_json(Json::Null, &patch);
    assert!(fresh.is_object());
    assert_eq!(fresh.get("default_model").unwrap().as_str(), Some("y"));
}

#[test]
fn settings_read_back_as_they_were_written() {
    let mut deep = Json::Number("-9223372036854775808".into());
    for _ in 0..126 {
        deep = Json::Array(vec![deep]);
    }
    let patch = none().with("deep", deep).with("n", Json::Number("-5".into()));
    let text = write_auth_json(None, &patch);
    let back = read_auth_json(Some(&text));
    assert_eq!(output_line(&back), output_line(&patch));
    assert!(matches!(back.get("n"), Some(Json::Number(t)) if t == "-5"));
}

#[test]
fn unreadable_settings_are_empty() {
    assert!(read_auth_json(None).is_object());
    assert!(read_auth_json(Some("not json")).is_object());
    assert!(read_auth_json(Some("[1]")).is_object());
    assert_eq!(output_line(&read_auth_json(Some("[1]"))), "{}");
}

#[test]
fn settings_file_is_found() {
    assert!(matches!(auth_file_path(Some("f"), Some("h"), None), Some(AuthPath::File("f"))));
    assert!(matches!(auth_file_path(None, Some("h"), Some("p")), Some(AuthPath::Under("h"))));
    assert!(matches!(auth_file_path(None, None, Some("p")), Some(AuthPath::Under("p"))));
    assert!(auth_file_path::<&str>(None, None, None).is_none());
}

// ---- requests -------------------------------------------------------------------------------

fn request() -> ProviderRequest {
    let mut r = ProviderRequest::new(
        Model { provider: "openai".into(), id: "m1".into(), context_window: 1, max_tokens: 1 },
        "sys".into(),
        vec![
            ChatMessage { role: "user".into(), parts: vec![Part::Text { text: "hi".into() }] },
            ChatMessage {
                role: "assistant".into(),
                parts: vec![
                    Part::Thinking { thinking: "hm".into() },
                    Part::ToolCall {
                        id: "c1".into(),
                        name: "bash".into(),
                        arguments: "{\"command\":\"ls\"}".into(),
                    },
                ],
            },
            ChatMessage {
                role: "user".into(),
                parts: vec![Part::ToolResult {
                    tool_call_id: "c1".into(),
                    content: "boom".into(),
                    is_error: true,
                }],
            },
        ],
    );
    r.tools.push(ToolSpec {
        name: "bash".into(),
        description: "runs".into(),
        input_schema: Json::object(),
    });
    r
}

#[test]
fn new_requests_have_defaults() {
    let r = ProviderRequest::new(model("openai"), String::new(), Vec::new());
    assert_eq!(r.max_tokens, 4096);
    assert_eq!(r.thinking, ThinkingLevel::Medium);
    assert!(r.tools.is_empty());
}

#[test]
fn chat_body_is_exact() {
    assert_eq!(
        output_line(&chat_body(&request())),
        "{\"max_tokens\":4096,\"messages\":[\
         {\"content\":\"sys\",\"role\":\"system\"},\
         {\"content\":\"hi\",\"role\":\"user\"},\
         {\"content\":\"hm\",\"role\":\"assistant\",\"tool_calls\":[{\"function\":\
         {\"arguments\":\"{\\\"command\\\":\\\"ls\\\"}\",\"name\":\"bash\"},\"id\":\"c1\",\
         \"type\":\"function\"}]},\
         {\"content\":\"[error]\\nboom\",\"role\":\"tool\",\"tool_call_id\":\"c1\"}],\
         \"model\":\"m1\",\"stream\":true,\"tools\":[{\"function\":{\"description\":\"runs\",\
         \"name\":\"bash\",\"parameters\":{}},\"type\":\"function\"}]}"
    );
    let plain = ProviderRequest::new(model("openai"), String::new(), Vec::new());
    assert_eq!(
        output_line(&chat_body(&plain)),
        "{\"max_tokens\":4096,\"messages\":[],\"model\":\"m\",\"stream\":true}"
    );
}

#[test]
fn anthropic_body_is_exact() {
    assert_eq!(
        output_line(&request_body(&request())),
        "{\"max_tokens\":4096,\"messages\":[\
         {\"content\":[{\"text\":\"hi\",\"type\":\"text\"}],\"role\":\"user\"},\
         {\"content\":[{\"thinking\":\"hm\",\"type\":\"thinking\"},{\"id\":\"c1\",\"input\":\
         {\"command\":\"ls\"},\"name\":\"bash\",\"type\":\"tool_use\"}],\"role\":\"assistant\"},\
         {\"content\":[{\"content\":\"boom\",\"is_error\":true,\"tool_use_id\":\"c1\",\
         \"type\":\"tool_result\"}],\"role\":\"user\"}],\"model\":\"m1\",\"stream\":true,\
         \"system\":\"sys\",\"thinking\":{\"budget_tokens\":2048,\"type\":\"enabled\"},\
         \"tools\":[{\"description\":\"runs\",\"input_schema\":{},\"name\":\"bash\"}]}"
    );
    let mut plain = ProviderRequest::new(model("anthropic"), String::new(), Vec::new());
    plain.thinking = ThinkingLevel::Off;
    let body = request_body(&plain);
    assert!(body.get("tools").is_none());
    assert!(body.get("thinking").is_none());
}

#[test]
fn unreadable_arguments_are_null() {
    let m = ChatMessage {
        role: "assistant".into(),
        parts: vec![Part::ToolCall {
            id: "c".into(),
            name: "n".into(),
            arguments: "{broken".into(),
        }],
    };
    assert_eq!(
        output_line(&conv_message(&m)),
        "{\"content\":[{\"id\":\"c\",\"input\":null,\"name\":\"n\",\"type\":\"tool_use\"}],\
         \"role\":\"assistant\"}"
    );
}

#[test]
fn requests_carry_url_headers_and_body() {
    let a = AnthropicProvider::new("http://a".into(), "SECRET".into());
    assert_eq!(a.api_key(), "SECRET");
    assert_eq!(a.version, "2023-06-01");
    let h = a.chat(&request()).unwrap();
    assert_eq!(h.url, "http://a");
    assert_eq!(
        h.headers,
        vec![
            ("x-api-key".to_string(), "SECRET".to_string()),
            ("anthropic-version".to_string(), "2023-06-01".to_string()),
            ("content-type".to_string(), "application/json".to_string()),
        ]
    );
    assert_eq!(h.body, output_line(&request_body(&request())));
    let o = OpenAiChatProvider::new("http://o".into(), "SECRET".into());
    let h = o.chat(&request()).unwrap();
    assert_eq!(h.headers[0], ("Authorization".to_string(), "Bearer SECRET".to_string()));
    assert_eq!(h.body, output_line(&chat_body(&request())));
    assert_eq!(AnthropicProvider::default().base_url, "https://api.anthropic.com/v1/messages");
}

fn refusal(p: &dyn ChatProvider) -> String {
    match p.chat(&request()) {
        Err(AiError::Other(m)) => m,
        other => panic!("expected a refusal, got {other:?}"),
    }
}

#[test]
fn providers_refuse_what_they_cannot_do() {
    let no_key = "未配置 API 密钥；请通过 --api-key、auth.json 或环境变量设置";
    assert_eq!(refusal(&AnthropicProvider::new("u".into(), String::new())), no_key);
    assert_eq!(refusal(&OpenAiChatProvider::new("u".into(), String::new())), no_key);
    assert_eq!(
        refusal(&OpenAiResponsesProvider::new("u".into(), "k".into())),
        "OpenAI Responses API 尚未实现；请使用 'openai chat'"
    );
    assert_eq!(
        refusal(&PendingProvider { vendor: "openai", api: ApiVariant::Responses }),
        "服务商 'openai responses' 已注册但尚未实现"
    );
    let p = ProviderKind::parse("openai responses").unwrap().build(None, None, &none());
    assert_eq!(p.wire(), None);
    assert_eq!(p.id(), "openai");
    let a = ProviderKind::parse("anthropic").unwrap().build(None, None, &none());
    assert_eq!(a.wire(), Some(Wire::Anthropic));
    assert_eq!(a.extract_usage(&Vec::new()).total, 0);
}

// ---- Anthropic events -----------------------------------------------------------------------

fn feed_anthropic(events: &[&str]) -> Vec<StreamEvent> {
    let mut p = AnthropicParser::default();
    let mut got = Vec::new();
    for e in events {
        got.extend(p.feed(e));
    }
    got
}

#[test]
fn maps_anthropic_event_sequence() {
    let got = feed_anthropic(&[
        r#"{"type":"message_start","message":{"usage":{"input_tokens":10,"cache_creation_input_tokens":2,"cache_read_input_tokens":0}}}"#,
        r#"{"type":"content_block_start","index":0,"content_block":{"type":"text","text":""}}"#,
        r#"{"type":"content_block_delta","index":0,"delta":{"type":"text_delta","text":"Hello"}}"#,
        r#"{"type":"content_block_delta","index":0,"delta":{"type":"text_delta","text":" World"}}"#,
        r#"{"type":"content_block_stop","index":0}"#,
        r#"{"type":"message_delta","delta":{"stop_reason":"end_turn"},"usage":{"output_tokens":5}}"#,
        r#"{"type":"message_stop"}"#,
    ]);
    assert!(
        matches!(got[0], StreamEvent::TextDelta { ref delta } if delta == "Hello"),
        "{got:?}"
    );
    assert!(matches!(got[1], StreamEvent::TextDelta { ref delta } if delta == " World"));
    match &got[2] {
        StreamEvent::Usage { usage } => assert_eq!(
            (usage.input, usage.output, usage.cache_write, usage.total),
            (10, 5, 2, 17)
        ),
        other => panic!("expected Usage, got {other:?}"),
    }
    assert!(
        matches!(got[3], StreamEvent::Done { stop_reason: StopReason::Stop }),
        "{got:?}"
    );
}

#[test]
fn maps_tool_use_events() {
    let got = feed_anthropic(&[
        r#"{"type":"message_start","message":{"usage":{"input_tokens":1}}}"#,
        r#"{"type":"content_block_start","index":0,"content_block":{"type":"tool_use","id":"toolu_1","name":"bash","input":{}}}"#,
        r#"{"type":"content_block_delta","index":0,"delta":{"type":"input_json_delta","partial_json":"{\"cmd\":\"ls\"}"}}"#,
        r#"{"type":"content_block_stop","index":0}"#,
        r#"{"type":"message_delta","delta":{"stop_reason":"tool_use"},"usage":{"output_tokens":3}}"#,
        r#"{"type":"message_stop"}"#,
    ]);
    assert!(
        matches!(got[0], StreamEvent::ToolCallStarted { ref name, .. } if name == "bash"),
        "{got:?}"
    );
    assert!(matches!(got[1], StreamEvent::ToolCallArgsDelta { .. }), "{got:?}");
    assert!(matches!(got[2], StreamEvent::Usage { usage } if usage.output == 3), "{got:?}");
    assert!(matches!(got[3], StreamEvent::Done { stop_reason: StopReason::ToolUse }));
}

#[test]
fn anthropic_skips_what_is_no_event() {
    assert!(feed_anthropic(&["", "  ", "ping", "[1]", "{}", r#"{"type":3}"#, r#"{"type":"ping"}"#])
        .is_empty());
    let got = feed_anthropic(&[
        r#"{"type":"content_block_delta","index":4,"delta":{"type":"thinking_delta","thinking":"t"}}"#,
        r#"{"type":"content_block_delta","index":4,"delta":{"type":"input_json_delta"}}"#,
        r#"{"type":"content_block_delta","delta":{"type":"other"}}"#,
        r#"{"type":"message_delta","delta":{"stop_reason":"max_tokens"}}"#,
        r#"{"type":"message_stop"}"#,
    ]);
    assert_eq!(got.len(), 4, "{got:?}");
    assert!(matches!(got[0], StreamEvent::ThinkingDelta { ref delta } if delta == "t"));
    assert!(
        matches!(got[1], StreamEvent::ToolCallArgsDelta { ref id, ref delta } if id == "4" && delta.is_empty())
    );
    assert!(matches!(got[3], StreamEvent::Done { stop_reason: StopReason::Length }));
}

// ---- chat completion chunks -----------------------------------------------------------------

fn feed_chat(lines: &[&str]) -> Vec<StreamEvent> {
    let mut p = ChatCompletionsParser::default();
    let mut got = Vec::new();
    for l in lines {
        got.extend(p.feed(l));
    }
    got
}

#[test]
fn maps_chat_completion_chunks() {
    let got = feed_chat(&[
        r#"{"choices":[{"delta":{"role":"assistant","content":""},"finish_reason":null}]}"#,
        r#"{"choices":[{"delta":{"content":"Hello"},"finish_reason":null}]}"#,
        r#"{"choices":[{"delta":{"content":" world"},"finish_reason":null}]}"#,
        r#"{"choices":[{"delta":{},"finish_reason":"stop"}],"usage":{"prompt_tokens":4,"completion_tokens":2,"total_tokens":6}}"#,
        "data: [DONE]",
        "",
    ]);
    assert!(matches!(got[0], StreamEvent::TextDelta { ref delta } if delta == "Hello"));
    assert!(matches!(got[1], StreamEvent::TextDelta { ref delta } if delta == " world"));
    assert!(matches!(
        got[2],
        StreamEvent::Usage { usage } if usage.input == 4 && usage.output == 2 && usage.total == 6
    ));
    assert!(matches!(got[3], StreamEvent::Done { stop_reason: StopReason::Stop }));
    assert_eq!(got.len(), 4, "{got:?}");
}

#[test]
fn maps_tool_calls() {
    let got = feed_chat(&[
        r#"{"choices":[{"delta":{"tool_calls":[{"index":0,"id":"call_1","function":{"name":"bash","arguments":""}}]},"finish_reason":null}]}"#,
        r#"{"choices":[{"delta":{"tool_calls":[{"index":0,"function":{"arguments":"{\"cmd\":"}}]},"finish_reason":null}]}"#,
        r#"{"choices":[{"delta":{"tool_calls":[{"index":0,"function":{"arguments":"\"ls\"}"}}]},"finish_reason":"tool_calls"}]}"#,
        r#"{"choices":[{"delta":{},"finish_reason":null}]}"#,
        "data: [DONE]",
    ]);
    assert!(matches!(got[0], StreamEvent::ToolCallStarted { ref name, .. } if name == "bash"));
    assert!(
        matches!(got[1], StreamEvent::ToolCallArgsDelta { ref delta, .. } if delta == "{\"cmd\":")
    );
    assert!(matches!(got[2], StreamEvent::ToolCallArgsDelta { .. }));
    assert!(matches!(got[3], StreamEvent::Done { stop_reason: StopReason::ToolUse }));
}

#[test]
fn done_marker_closes_a_stream_once() {
    let got = feed_chat(&[" [DONE] "]);
    assert!(matches!(got[..], [StreamEvent::Done { stop_reason: StopReason::Stop }]));
    let got = feed_chat(&[
        r#"{"choices":[{"delta":{"content":"x"},"finish_reason":"length"}]}"#,
        "[DONE]",
        "[DONE]",
    ]);
    assert_eq!(got.len(), 2, "{got:?}");
    assert!(matches!(got[1], StreamEvent::Done { stop_reason: StopReason::Length }));
}

#[test]
fn every_finish_reason_ends_the_stream() {
    let dones = |lines: &[&str]| {
        feed_chat(lines).iter().filter(|e| matches!(e, StreamEvent::Done { .. })).count()
    };
    let stop = r#"{"choices":[{"delta":{},"finish_reason":"stop"}]}"#;
    let word = r#"{"choices":[{"delta":{"content":"x"}}]}"#;
    assert_eq!(dones(&[word, "[DONE]"]), 1);
    assert_eq!(dones(&[word, stop, "[DONE]"]), 1);
    assert_eq!(dones(&[stop, stop, "[DONE]"]), 2);
}

#[test]
fn repeated_members_count_by_the_later() {
    let got = feed_chat(&[r#"{"choices":[{"delta":{"content":"a","content":"b"}}]}"#]);
    assert!(matches!(&got[..], [StreamEvent::TextDelta { delta }] if delta == "b"));
}

#[test]
fn malformed_chunks_are_ignored_whole() {
    let bad = [
        "{",
        "{}",
        r#"{"choices":{}}"#,
        r#"{"choices":[{"finish_reason":"stop"}]}"#,
        r#"{"choices":[{"delta":{"content":"x"}},{"delta":{"content":5}}]}"#,
        r#"{"choices":[{"delta":{"tool_calls":[{"id":"no index"}]}}]}"#,
        r#"{"choices":[{"delta":{"tool_calls":[{"index":-1}]}}]}"#,
        r#"{"choices":[{"delta":[null,null,null]}]}"#,
    ];
    assert!(feed_chat(&bad).is_empty());
    // records may come as arrays, and optional fields as null
    let got = feed_chat(&[r#"[[[["x",null],"stop"]],{"prompt_tokens":1}]"#]);
    assert_eq!(got.len(), 3, "{got:?}");
    assert!(matches!(got[1], StreamEvent::Usage { usage } if usage.input == 1));
}

#[test]
fn interleaved_tool_calls_are_started_anew() {
    let got = feed_chat(&[
        r#"{"choices":[{"delta":{"tool_calls":[{"index":1,"id":"b","function":{"name":"two","arguments":"x"}},{"index":0,"id":"a","function":{"name":"one","arguments":"y"}}]}}]}"#,
        r#"{"choices":[{"delta":{"tool_calls":[{"index":1,"function":{"arguments":"z"}}]}}]}"#,
    ]);
    let shown: Vec<String> = got
        .iter()
        .map(|e| match e {
            StreamEvent::ToolCallStarted { id, name } => format!("start {id} {name}"),
            StreamEvent::ToolCallArgsDelta { id, delta } => format!("args {id} {delta}"),
            other => format!("{other:?}"),
        })
        .collect();
    assert_eq!(
        shown,
        vec!["start b two", "args b x", "start a one", "args a y", "start b two", "args b z"]
    );
}
