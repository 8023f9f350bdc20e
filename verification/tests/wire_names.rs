use bybit_client::envelope::BybitErrorCode;
use bybit_client::{AccountType, JsonValue};

#[test]
fn account_type_wire_names_round_trip() {
    let all = [
        (AccountType::UNIFIED, "UNIFIED"),
        (AccountType::FUND, "FUND"),
        (AccountType::CONTRACT, "CONTRACT"),
        (AccountType::SPOT, "SPOT"),
    ];
    for (a, name) in all {
        assert_eq!(a.wire_name(), name);
        assert_eq!(AccountType::from_wire_name(name), Some(a));
    }
    assert_eq!(AccountType::from_wire_name("OPTION"), None);
}

#[test]
fn error_codes_refuse_zero() {
    assert!(matches!(
        BybitErrorCode::from_json(&JsonValue::Num(10001)),
        Some(BybitErrorCode(10001))
    ));
    assert!(matches!(
        BybitErrorCode::from_json(&JsonValue::Num(-7)),
        Some(BybitErrorCode(-7))
    ));
    assert!(BybitErrorCode::from_json(&JsonValue::Num(0)).is_none());
    assert!(BybitErrorCode::from_json(&JsonValue::Num(1 << 40)).is_none());
    assert!(BybitErrorCode::from_json(&JsonValue::Str("1".to_string())).is_none());
}
