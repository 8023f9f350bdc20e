use bybit_client::{sign, JsonValue, Params};

fn sample_params() -> Params {
    Params::Get(JsonValue::Obj(vec![
        ("a".to_string(), JsonValue::Num(1)),
        ("b".to_string(), JsonValue::Str("x".to_string())),
    ]))
}

#[test]
fn sign_matches_manual_hmac() {
    let secret = "SECRET-REDACTED";
    let key = "api-key-1";
    let ts: i64 = 1700000000000;
    let window: u64 = 5000;
    let sig = sign(secret, ts, key, window, &sample_params()).unwrap();

    let base = format!("{}{}{}{}", ts, key, window, "a=1&b=x");
    let hkey = ring::hmac::Key::new(ring::hmac::HMAC_SHA256, secret.as_bytes());
    let tag = ring::hmac::sign(&hkey, base.as_bytes());
    let expected = hex::encode(tag.as_ref());
    assert_eq!(sig, expected);
}

#[test]
fn sign_is_deterministic() {
    let a = sign("s", 1700000000000, "k", 5000, &sample_params()).unwrap();
    let b = sign("s", 1700000000000, "k", 5000, &sample_params()).unwrap();
    assert_eq!(a, b);
}

#[test]
fn sign_changes_with_each_input() {
    let base = sign("s", 1700000000000, "k", 5000, &sample_params()).unwrap();
    assert_ne!(base, sign("t", 1700000000000, "k", 5000, &sample_params()).unwrap());
    assert_ne!(base, sign("s", 1700000000001, "k", 5000, &sample_params()).unwrap());
    assert_ne!(base, sign("s", 1700000000000, "k2", 5000, &sample_params()).unwrap());
    assert_ne!(base, sign("s", 1700000000000, "k", 5001, &sample_params()).unwrap());
    let other = Params::Get(JsonValue::Obj(vec![(
        "a".to_string(),
        JsonValue::Num(2),
    )]));
    assert_ne!(base, sign("s", 1700000000000, "k", 5000, &other).unwrap());
}

#[test]
fn sign_adversarial_field_boundaries() {
    // The timestamp's suffix could be mistaken for the key's prefix; the
    // base strings collide only when two inputs change together.
    let p = sample_params();
    let one = sign("s", 123, "4abc", 5000, &p).unwrap();
    let two = sign("s", 1234, "abc", 5000, &p).unwrap();
    assert_eq!(one, two); // same base string: two inputs changed at once
    let three = sign("s", 123, "abc", 5000, &p).unwrap();
    assert_ne!(one, three); // one input changed: different base string
}

#[test]
fn sign_distinct_timestamps_distinct_signatures() {
    let p = sample_params();
    let a = sign("s", 1700000000000, "k", 5000, &p).unwrap();
    let b = sign("s", 1700000000001, "k", 5000, &p).unwrap();
    assert_ne!(a, b);
}

#[test]
fn sign_rejects_unencodable_query_params() {
    let nested = Params::Get(JsonValue::Obj(vec![(
        "a".to_string(),
        JsonValue::Arr(vec![JsonValue::Num(1)]),
    )]));
    assert!(sign("s", 1700000000000, "k", 5000, &nested).is_err());
}
