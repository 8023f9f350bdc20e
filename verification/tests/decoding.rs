use bybit_client::envelope::decode_response;
use bybit_client::{AccountType, FundingBalance, ResponseError};

fn success_reply() -> String {
    let mut s = String::new();
    s.push_str("{\"retCode\":0,\"retMsg\":\"OK\",\"result\":");
    s.push_str("{\"accountType\":\"FUND\",\"memberId\":\"42\",\"balance\":[");
    s.push_str("{\"coin\":\"BTC\",\"transferBalance\":\"1.5\",");
    s.push_str("\"walletBalance\":\"2.5\",\"bonus\":\"0\"}]},");
    s.push_str("\"retExtInfo\":{},\"time\":123}");
    s
}

#[test]
fn zero_code_decodes_as_success_payload() {
    let r = decode_response::<FundingBalance>(success_reply().as_bytes());
    let resp = r.unwrap_or_else(|_| panic!("expected success"));
    assert_eq!(resp.return_code, 0);
    assert_eq!(resp.return_message, "OK");
    assert_eq!(resp.time, 123);
    assert!(resp.return_extended_info.is_some());
    let fb = resp.result;
    assert!(matches!(fb.account_type, AccountType::FUND));
    assert_eq!(fb.member_id, "42");
    assert_eq!(fb.balance.len(), 1);
    assert_eq!(fb.balance[0].coin, "BTC");
    assert_eq!(fb.balance[0].transfer_balance, "1.5");
    assert_eq!(fb.balance[0].wallet_balance, "2.5");
    assert_eq!(fb.balance[0].bonus, "0");
}

#[test]
fn nonzero_code_decodes_as_application_error() {
    let bytes = b"{\"retCode\":10001,\"retMsg\":\"bad request\"}";
    match decode_response::<FundingBalance>(bytes) {
        Err(ResponseError::Api(e)) => {
            assert_eq!(e.code.0, 10001);
            assert_eq!(e.message.as_deref(), Some("bad request"));
            assert_eq!(e.to_string(), "BybitError: bad request (10001)");
        },
        _ => panic!("expected an application error"),
    }
}

#[test]
fn null_message_displays_as_not_available() {
    let bytes = b"{\"retCode\":10002,\"retMsg\":null}";
    match decode_response::<FundingBalance>(bytes) {
        Err(ResponseError::Api(e)) => {
            assert_eq!(e.code.0, 10002);
            assert!(e.message.is_none());
            assert!(e.to_string().ends_with("N/A (10002)"));
        },
        _ => panic!("expected an application error"),
    }
}

#[test]
fn valid_json_matching_neither_shape_is_a_decode_error() {
    let bytes = b"{\"foo\":1}";
    assert!(matches!(
        decode_response::<FundingBalance>(bytes),
        Err(ResponseError::Decode)
    ));
}

#[test]
fn malformed_json_is_a_decode_error() {
    let bytes = b"{\"retCode\":0,";
    assert!(matches!(
        decode_response::<FundingBalance>(bytes),
        Err(ResponseError::Decode)
    ));
}

#[test]
fn zero_code_with_wrong_result_shape_is_a_decode_error() {
    let bytes = b"{\"retCode\":0,\"retMsg\":\"OK\",\"result\":{},\"time\":1}";
    assert!(matches!(
        decode_response::<FundingBalance>(bytes),
        Err(ResponseError::Decode)
    ));
}

#[test]
fn whitespace_and_escapes_are_accepted() {
    let mut text = String::new();
    text.push_str("{ \"retCode\" : 10003 ,\n");
    text.push_str("  \"retMsg\" : \"uh \\u0041\\n\\\"oh\\\" \\ud83d\\ude00\" }");
    let bytes = text.as_bytes();
    match decode_response::<FundingBalance>(bytes) {
        Err(ResponseError::Api(e)) => {
            assert_eq!(e.message.as_deref(), Some("uh A\n\"oh\" \u{1f600}"));
        },
        _ => panic!("expected an application error"),
    }
}

#[test]
fn reference_decoder_agrees_on_the_success_reply() {
    // The envelope grammar matches what a reference JSON parser reads.
    let v: serde_json::Value = serde_json::from_str(&success_reply()).unwrap();
    assert_eq!(v["retCode"], serde_json::Value::from(0i64));
    assert_eq!(v["result"]["memberId"], serde_json::Value::from("42"));
}

#[test]
fn absent_extended_info_reads_as_none() {
    let mut s = String::new();
    s.push_str("{\"retCode\":0,\"retMsg\":\"OK\",\"result\":");
    s.push_str("{\"accountType\":\"SPOT\",\"memberId\":\"1\",\"balance\":[]},");
    s.push_str("\"time\":0}");
    let resp = decode_response::<FundingBalance>(s.as_bytes())
        .unwrap_or_else(|_| panic!("expected success"));
    assert!(resp.return_extended_info.is_none());
    assert!(matches!(resp.result.account_type, AccountType::SPOT));
}
