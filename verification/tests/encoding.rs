use std::collections::BTreeMap;

use bybit_client::{JsonValue, Params};

fn obj(members: Vec<(&str, JsonValue)>) -> JsonValue {
    JsonValue::Obj(
        members
            .into_iter()
            .map(|(k, v)| (k.to_string(), v))
            .collect(),
    )
}

#[test]
fn query_mode_orders_fields_by_declaration() {
    let p = Params::Get(obj(vec![
        ("a", JsonValue::Num(1)),
        ("b", JsonValue::Str("x".to_string())),
    ]));
    assert_eq!(p.to_string().unwrap(), "a=1&b=x");
}

#[test]
fn body_mode_is_compact_json() {
    let p = Params::Post(obj(vec![
        ("a", JsonValue::Num(1)),
        ("b", JsonValue::Str("x".to_string())),
    ]));
    assert_eq!(p.to_string().unwrap(), "{\"a\":1,\"b\":\"x\"}");
}

#[test]
fn body_mode_matches_reference_json_encoder() {
    let p = Params::Post(obj(vec![
        ("n", JsonValue::Num(-42)),
        ("s", JsonValue::Str("he\"llo\n".to_string())),
        ("t", JsonValue::Bool(true)),
        ("z", JsonValue::Null),
        ("l", JsonValue::Arr(vec![JsonValue::Num(1), JsonValue::Num(2)])),
    ]));
    let mut m = serde_json::Map::new();
    m.insert("n".to_string(), serde_json::Value::from(-42i64));
    m.insert("s".to_string(), serde_json::Value::from("he\"llo\n"));
    m.insert("t".to_string(), serde_json::Value::from(true));
    m.insert("z".to_string(), serde_json::Value::Null);
    m.insert(
        "l".to_string(),
        serde_json::Value::from(vec![1i64, 2i64]),
    );
    // serde_json's maps do not keep declaration order, so compare values
    // through a reference parse of our encoding instead of text equality.
    let encoded = p.to_string().unwrap();
    let reparsed: serde_json::Value = serde_json::from_str(&encoded).unwrap();
    assert_eq!(reparsed, serde_json::Value::Object(m));
}

#[test]
fn query_mode_percent_encodes_values() {
    let p = Params::Get(obj(vec![
        ("q", JsonValue::Str("a b+c&d=e%".to_string())),
        ("u", JsonValue::Str("caf\u{e9}".to_string())),
    ]));
    assert_eq!(p.to_string().unwrap(), "q=a+b%2Bc%26d%3De%25&u=caf%C3%A9");
}

#[test]
fn query_mode_roundtrips_through_reference_decoder() {
    let p = Params::Get(obj(vec![
        ("a", JsonValue::Num(1)),
        ("b", JsonValue::Str("x".to_string())),
        ("c", JsonValue::Str("a b+c&d=e".to_string())),
        ("d", JsonValue::Bool(true)),
    ]));
    let encoded = p.to_string().unwrap();
    let decoded: BTreeMap<String, String> = serde_qs::from_str(&encoded).unwrap();
    assert_eq!(decoded["a"], "1");
    assert_eq!(decoded["b"], "x");
    assert_eq!(decoded["c"], "a b+c&d=e");
    assert_eq!(decoded["d"], "true");
    assert_eq!(decoded.len(), 4);
}

#[test]
fn query_mode_rejects_nested_values() {
    let nested = Params::Get(obj(vec![(
        "a",
        JsonValue::Obj(vec![("b".to_string(), JsonValue::Num(1))]),
    )]));
    assert!(nested.to_string().is_err());
    let arr = Params::Get(obj(vec![(
        "a",
        JsonValue::Arr(vec![JsonValue::Num(1)]),
    )]));
    assert!(arr.to_string().is_err());
    let scalar = Params::Get(JsonValue::Num(3));
    assert!(scalar.to_string().is_err());
}

#[test]
fn query_mode_renders_null_as_bare_key() {
    let p = Params::Get(obj(vec![
        ("coin", JsonValue::Null),
        ("withBonus", JsonValue::Num(0)),
    ]));
    assert_eq!(p.to_string().unwrap(), "coin&withBonus=0");
}
