use bybit_client::{sign, Client, JsonValue, Params, ResponseError, MAINNET};

#[test]
fn client_keeps_its_credentials() {
    let c = Client::new("key".to_string(), "secret".to_string());
    assert_eq!(c.api_key, "key");
    assert_eq!(c.secret, "secret");
}

#[test]
fn funding_balance_request_is_fully_formed() {
    let mut c = Client::new("key".to_string(), "secret".to_string());
    let req = c
        .get_funding_balance(Some("BTC".to_string()), 5000)
        .unwrap()
        .request;
    assert_eq!(req.method, "GET");
    assert_eq!(
        req.uri,
        format!(
            "{}{}?accountType=FUND&coin=BTC&withBonus=0",
            MAINNET, "/v5/asset/transfer/query-account-coins-balance"
        )
    );
    assert_eq!(req.body, "");
    assert_eq!(req.headers.len(), 4);
    assert_eq!(req.headers[0].0, "X-BAPI-API-KEY");
    assert_eq!(req.headers[0].1, "key");
    assert_eq!(req.headers[1].0, "X-BAPI-SIGN");
    assert_eq!(req.headers[2].0, "X-BAPI-TIMESTAMP");
    assert_eq!(req.headers[3].0, "X-BAPI-RECV-WINDOW");
    assert_eq!(req.headers[3].1, "5000");

    // The signed timestamp is the one in the timestamp header.
    let ts: i64 = req.headers[2].1.parse().unwrap();
    let params = Params::Get(JsonValue::Obj(vec![
        (
            "accountType".to_string(),
            JsonValue::Str("FUND".to_string()),
        ),
        ("coin".to_string(), JsonValue::Str("BTC".to_string())),
        ("withBonus".to_string(), JsonValue::Num(0)),
    ]));
    let expected = sign("secret", ts, "key", 5000, &params).unwrap();
    assert_eq!(req.headers[1].1, expected);
}

#[test]
fn funding_balance_without_coin_omits_the_pair() {
    let mut c = Client::new("key".to_string(), "secret".to_string());
    let req = c.get_funding_balance(None, 1000).unwrap().request;
    assert!(req.uri.ends_with("?accountType=FUND&withBonus=0"));
}

#[test]
fn built_request_decodes_its_reply() {
    let mut c = Client::new("key".to_string(), "secret".to_string());
    let pending = c.get_funding_balance(None, 5000).unwrap();
    let mut reply = String::new();
    reply.push_str("{\"retCode\":0,\"retMsg\":\"OK\",\"result\":");
    reply.push_str("{\"accountType\":\"FUND\",\"memberId\":\"7\",\"balance\":[]},");
    reply.push_str("\"time\":9}");
    let fb = pending.decode(reply.as_bytes()).unwrap_or_else(|_| panic!("expected success"));
    assert_eq!(fb.member_id, "7");
    assert!(fb.balance.is_empty());

    let pending = c.get_funding_balance(None, 5000).unwrap();
    let err = pending.decode(b"{\"retCode\":33004,\"retMsg\":\"expired\"}");
    match err {
        Err(ResponseError::Api(e)) => assert_eq!(e.code.0, 33004),
        _ => panic!("expected an application error"),
    }
}
