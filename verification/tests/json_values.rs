use bybit_client::json::{json_from_bytes, json_to_string};
use bybit_client::JsonValue;

fn render(v: &JsonValue) -> String {
    json_to_string(v)
}

fn reparse(text: &str) -> String {
    render(&json_from_bytes(text.as_bytes()).unwrap())
}

#[test]
fn renders_scalars() {
    assert_eq!(render(&JsonValue::Null), "null");
    assert_eq!(render(&JsonValue::Bool(true)), "true");
    assert_eq!(render(&JsonValue::Bool(false)), "false");
    assert_eq!(render(&JsonValue::Num(0)), "0");
    assert_eq!(render(&JsonValue::Num(-170)), "-170");
    assert_eq!(render(&JsonValue::Num(i64::MIN)), "-9223372036854775808");
    assert_eq!(render(&JsonValue::Num(i64::MAX)), "9223372036854775807");
    assert_eq!(
        render(&JsonValue::Str("a\"b\\c\nd\u{1}".to_string())),
        "\"a\\\"b\\\\c\\nd\\u0001\""
    );
}

#[test]
fn parse_then_render_normalizes_whitespace() {
    assert_eq!(
        reparse(" { \"a\" : [ 1 , true , null ] , \"b\" : \"x\" } "),
        "{\"a\":[1,true,null],\"b\":\"x\"}"
    );
    assert_eq!(reparse("[]"), "[]");
    assert_eq!(reparse("{}"), "{}");
    assert_eq!(reparse("-0"), "0");
}

#[test]
fn parses_escapes_and_surrogate_pairs() {
    assert_eq!(reparse("\"\\u0041\""), "\"A\"");
    assert_eq!(reparse("\"\\ud83d\\ude00\""), format!("\"{}\"", '\u{1f600}'));
    assert_eq!(reparse("\"\\t\\/\\b\\f\\r\""), "\"\\t/\\b\\f\\r\"");
}

#[test]
fn rejects_malformed_documents() {
    assert!(json_from_bytes(b"").is_none());
    assert!(json_from_bytes(b"{").is_none());
    assert!(json_from_bytes(b"01").is_none());
    assert!(json_from_bytes(b"1.5").is_none());
    assert!(json_from_bytes(b"1e3").is_none());
    assert!(json_from_bytes(b"[1,]").is_none());
    assert!(json_from_bytes(b"{\"a\":1,}").is_none());
    assert!(json_from_bytes(b"\"\\ud83d\"").is_none());
    assert!(json_from_bytes(b"nul").is_none());
    assert!(json_from_bytes(b"1 2").is_none());
    assert!(json_from_bytes(b"9223372036854775808").is_none());
    assert!(json_from_bytes(b"-9223372036854775809").is_none());
}

#[test]
fn accepts_extreme_integers() {
    assert!(json_from_bytes(b"9223372036854775807").is_some());
    assert!(json_from_bytes(b"-9223372036854775808").is_some());
}
