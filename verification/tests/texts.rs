use agentrust::json::{parse_or_null, Json};
use agentrust::rpc::output_line;
use agentrust::text;

#[test]
fn texts_are_trimmed_and_split() {
    assert_eq!(text::trim(" \u{3000}a b\n"), "a b");
    assert_eq!(text::trim_start("  x "), "x ");
    assert_eq!(text::split_words(" a\t b\u{a0}c "), vec!["a", "b", "c"]);
    assert_eq!(text::to_lower("AbÇ"), "abÇ");
    assert_eq!(text::lines("a\r\nb\n\nc\r"), vec!["a", "b", "", "c\r"]);
    assert_eq!(text::split_once("k: v: w", ':'), ("k".into(), Some(" v: w".into())));
    assert_eq!(text::split_once("k", ':'), ("k".into(), None));
    assert_eq!(text::trim_end_char("a//", '/'), "a");
    assert_eq!(text::strip_prefix("输入=5", "输入=").as_deref(), Some("5"));
    assert_eq!(text::strip_prefix("输出=5", "输入="), None);
    assert_eq!(text::join(&vec!["a".into(), "b".into(), "c".into()], ", "), "a, b, c");
}

#[test]
fn numbers_are_written_and_read() {
    for n in [0u64, 7, 10, 65_535, u64::MAX] {
        assert_eq!(text::u64_text(n), n.to_string());
        assert_eq!(text::parse_u64(&text::u64_text(n)), Some(n));
    }
    assert_eq!(text::i32_text(i32::MIN), "-2147483648");
    assert_eq!(text::hex_text(0xbeef, 6), "00beef");
    assert_eq!(text::parse_u64("+12"), Some(12));
    assert_eq!(text::parse_u64("18446744073709551616"), None);
    assert_eq!(text::parse_u64(""), None);
    assert_eq!(text::parse_u64("+"), None);
    assert_eq!(text::parse_u64("1a"), None);
}

#[test]
fn texts_are_cut_at_bytes() {
    assert_eq!(text::byte_len("é你"), 5);
    assert!(text::is_cuttable("é你", 2));
    assert!(!text::is_cuttable("é你", 3));
    assert!(!text::is_cuttable("é你", 6));
    assert_eq!(text::cut("é你", 2), "é");
}

#[test]
fn json_is_read_and_written() {
    let t = "{\"a\":[1,-2,1.5,true,null,\"x\\n\"],\"b\":{}}";
    assert_eq!(output_line(&parse_or_null(t)), t);
    assert!(parse_or_null("{").is_null());
    let j = parse_or_null("{\"k\":1,\"k\":2}");
    assert_eq!(j.get("k").unwrap().as_u64(), Some(2));
    assert_eq!(j.get("l").map(|v| v.is_null()), None);
    assert!(parse_or_null("-1").as_u64().is_none());
    let twice = Json::object().with("k", Json::UInt(1)).with("k", Json::Bool(false));
    assert_eq!(output_line(&twice), "{\"k\":false}");
    assert_eq!(j.text_member("k"), "");
    assert_eq!(output_line(&Json::of_str("a\nb\u{1}")), "\"a\\nb\\u0001\"");
}
