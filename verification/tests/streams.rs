use agentrust::error::AiError;
use agentrust::model::Usage;
use agentrust::stream::{SseSplitter, StopReason, StreamEvent, StreamReader};
use bytes::Bytes;
use std::collections::VecDeque;

fn payloads(s: &mut SseSplitter) -> Vec<String> {
    s.take_output().into_iter().map(|r| r.expect("payload")).collect()
}

#[test]
fn splitter_handles_chunk_boundaries() {
    let sse = "event: message_start\ndata: {\"type\":\"a\"}\n\n".repeat(3);
    let mut s = SseSplitter::new();

    // chunk sizes [1,3,7,2] cycling
    let mut pos = 0usize;
    for size in [1usize, 3, 7, 2].into_iter().cycle() {
        if pos >= sse.len() {
            break;
        }
        let end = (pos + size).min(sse.len());
        s.push(Bytes::copy_from_slice(sse[pos..end].as_bytes()));
        pos = end;
    }
    if pos < sse.len() {
        s.push(Bytes::copy_from_slice(sse[pos..].as_bytes()));
    }
    s.finish();

    let got = payloads(&mut s);
    assert_eq!(got.len(), 3, "{got:?}");
    assert!(got.iter().all(|l| l == "{\"type\":\"a\"}"));
}

#[test]
fn splitter_joins_multiline_data() {
    let sse = "data: line1\ndata: line2\n\ndata: done\n\n";
    let mut s = SseSplitter::new();
    s.push(Bytes::from_static(sse.as_bytes()));
    s.finish();
    let got = payloads(&mut s);
    assert_eq!(got, vec!["line1\nline2".to_string(), "done".to_string()]);
}

#[test]
fn every_chunking_gives_the_same_payloads() {
    let sse = "id: 7\r\ndata:one\r\n\r\ndata: two\n: note\ndata:three\ndata:\ndata: tail";
    let mut whole = SseSplitter::new();
    whole.push_slice(sse.as_bytes());
    whole.finish();
    let want = payloads(&mut whole);
    assert_eq!(want, vec!["one", "two\nthree", "tail"]);
    for size in 1..sse.len() {
        let mut s = SseSplitter::new();
        for chunk in sse.as_bytes().chunks(size) {
            s.push_slice(chunk);
        }
        s.finish();
        assert_eq!(payloads(&mut s), want);
    }
}

#[test]
fn payloads_are_decoded_lossily() {
    let mut s = SseSplitter::new();
    s.push(Bytes::from_static(b"data: a\xffb\n\n"));
    s.push(Bytes::from_static("data: 你好\n\n".as_bytes()));
    assert_eq!(payloads(&mut s), vec!["a\u{fffd}b", "你好"]);
}

#[test]
fn stream_errors_follow_the_payloads() {
    let mut s = SseSplitter::new();
    s.push_slice(b"data: x\n\n");
    s.out_send_err(AiError::Stream("cut".into()));
    let out = s.take_output();
    assert_eq!(out.len(), 2);
    assert_eq!(out[0].as_ref().unwrap(), "x");
    assert_eq!(out[1].as_ref().unwrap_err().message(), "stream error: cut");
    assert!(s.take_output().is_empty());
}

fn usage(input: u64, output: u64) -> Usage {
    Usage { input, output, cache_read: 0, cache_write: 0, total: input + output }
}

#[test]
fn reader_collects_text_thinking_and_last_usage() {
    let mut items = VecDeque::new();
    items.push_back(Ok(StreamEvent::TextDelta { delta: "He".into() }));
    items.push_back(Ok(StreamEvent::ThinkingDelta { delta: "hm".into() }));
    items.push_back(Err(AiError::Other("ignored".into())));
    items.push_back(Ok(StreamEvent::Usage { usage: usage(1, 1) }));
    items.push_back(Ok(StreamEvent::TextDelta { delta: "llo".into() }));
    items.push_back(Ok(StreamEvent::Usage { usage: usage(3, 4) }));
    items.push_back(Ok(StreamEvent::Done { stop_reason: StopReason::Stop }));
    let (text, thinking, u) = StreamReader::new(items).collect();
    assert_eq!(text, "Hello");
    assert_eq!(thinking, "hm");
    assert_eq!((u.input, u.output, u.total), (3, 4, 7));
}

#[test]
fn reader_yields_items_in_order() {
    let mut items = VecDeque::new();
    items.push_back(Ok(StreamEvent::ToolCallDone { id: "a".into() }));
    items.push_back(Err(AiError::Http("down".into())));
    let mut sr = StreamReader::new(items);
    assert!(matches!(sr.next(), Some(Ok(StreamEvent::ToolCallDone { .. }))));
    assert!(matches!(sr.next(), Some(Err(AiError::Http(_)))));
    assert!(sr.next().is_none());
}

#[test]
fn error_messages_are_exact() {
    assert_eq!(AiError::Http("x".into()).message(), "http error: x");
    assert_eq!(
        AiError::Provider { status: 500, body: "oops".into() }.message(),
        "provider error 500: oops"
    );
    assert_eq!(AiError::RateLimited(None).message(), "rate limited (429), retry-after Nones");
    assert_eq!(
        AiError::RateLimited(Some(12)).message(),
        "rate limited (429), retry-after Some(12)s"
    );
    assert_eq!(AiError::Json("bad".into()).message(), "serialization error: bad");
    assert_eq!(AiError::Other("plain".into()).message(), "plain");
}

#[test]
fn statuses_become_errors() {
    assert!(AiError::of_status(200, None, String::new()).is_none());
    assert!(AiError::of_status(399, Some("7"), String::new()).is_none());
    assert!(matches!(
        AiError::of_status(429, None, "b".into()),
        Some(AiError::RateLimited(None))
    ));
    assert!(matches!(
        AiError::of_status(429, Some("7"), "b".into()),
        Some(AiError::RateLimited(Some(7)))
    ));
    assert!(matches!(
        AiError::of_status(429, Some("soon"), "b".into()),
        Some(AiError::RateLimited(None))
    ));
    assert_eq!(
        AiError::of_status(400, Some("7"), "b".into()).unwrap().message(),
        "provider error 400: b"
    );
    assert!(matches!(
        AiError::of_response(429, Some("30"), "Too Many Requests"),
        AiError::RateLimited(Some(30))
    ));
    assert!(matches!(
        AiError::of_response(429, Some("soon"), "Too Many Requests"),
        AiError::RateLimited(None)
    ));
    assert_eq!(
        AiError::of_response(404, None, "Not Found").message(),
        "provider error 404: 404 Not Found"
    );
}

#[test]
fn usage_adds_up() {
    let mut u = Usage::default();
    u.accumulate(&usage(3, 4));
    u.accumulate(&usage(10, 1));
    assert_eq!((u.input, u.output, u.total), (13, 5, 18));
    assert_eq!(StopReason::default(), StopReason::Stop);
}
