//! A credentialed client and the funding-balance endpoint.
use vstd::prelude::*;

use crate::envelope::{chars_eq, obj_get, FromJson};
use crate::json::{kv_views_of, views_of, Json, JsonValue};
use crate::params::EncodeError;
use crate::query::query_chars;
use crate::request::{get_request_models, query_encodable, BybitRequest, IntoGetRequest, MAINNET};
use vstd::string::StringExecFns;

verus! {

/// An account class on the exchange.
#[derive(Clone, Copy, Debug, PartialEq, Eq, Structural)]
pub enum AccountType {
    UNIFIED,
    FUND,
    CONTRACT,
    SPOT,
}

/// The wire name of an account class.
pub open spec fn account_type_chars(a: AccountType) -> Seq<char> {
    match a {
        AccountType::UNIFIED => "UNIFIED"@,
        AccountType::FUND => "FUND"@,
        AccountType::CONTRACT => "CONTRACT"@,
        AccountType::SPOT => "SPOT"@,
    }
}

/// The account class with the given wire name, if any.
pub open spec fn account_type_of(s: Seq<char>) -> Option<AccountType> {
    if s == "UNIFIED"@ {
        Some(AccountType::UNIFIED)
    } else if s == "FUND"@ {
        Some(AccountType::FUND)
    } else if s == "CONTRACT"@ {
        Some(AccountType::CONTRACT)
    } else if s == "SPOT"@ {
        Some(AccountType::SPOT)
    } else {
        None
    }
}

impl AccountType {
    /// The wire name of this account class.
    pub fn wire_name(&self) -> (r: String)
        ensures
            r@ == account_type_chars(*self),
    {
        match self {
            AccountType::UNIFIED => String::from_str("UNIFIED"),
            AccountType::FUND => String::from_str("FUND"),
            AccountType::CONTRACT => String::from_str("CONTRACT"),
            AccountType::SPOT => String::from_str("SPOT"),
        }
    }

    /// The account class with the given wire name, if any.
    pub fn from_wire_name(s: &str) -> (r: Option<AccountType>)
        ensures
            r == account_type_of(s@),
    {
        if chars_eq(s, "UNIFIED") {
            Some(AccountType::UNIFIED)
        } else if chars_eq(s, "FUND") {
            Some(AccountType::FUND)
        } else if chars_eq(s, "CONTRACT") {
            Some(AccountType::CONTRACT)
        } else if chars_eq(s, "SPOT") {
            Some(AccountType::SPOT)
        } else {
            None
        }
    }
}

/// One coin's balances, as the exchange reports them: decimal strings.
pub struct BybitBalance {
    pub coin: String,
    pub transfer_balance: String,
    pub wallet_balance: String,
    pub bonus: String,
}

/// The model of one coin's balances: coin, transfer balance, wallet
/// balance, bonus.
pub type BalanceModel = (Seq<char>, Seq<char>, Seq<char>, Seq<char>);

impl View for BybitBalance {
    type V = BalanceModel;

    open spec fn view(&self) -> BalanceModel {
        (self.coin@, self.transfer_balance@, self.wallet_balance@, self.bonus@)
    }
}

impl FromJson for BybitBalance {
    open spec fn json_to_model(j: Json) -> Option<BalanceModel> {
        match j {
            Json::Obj(o) => match (
                crate::envelope::obj_lookup(o, "coin"@),
                crate::envelope::obj_lookup(o, "transferBalance"@),
                crate::envelope::obj_lookup(o, "walletBalance"@),
                crate::envelope::obj_lookup(o, "bonus"@),
            ) {
                (
                    Some(Json::Str(c)),
                    Some(Json::Str(t)),
                    Some(Json::Str(w)),
                    Some(Json::Str(b)),
                ) => Some((c, t, w, b)),
                _ => None,
            },
            _ => None,
        }
    }

    fn from_json(v: &JsonValue) -> (r: Option<Self>) {
        let o = match v {
            JsonValue::Obj(o) => o,
            _ => {
                return None;
            },
        };
        let coin = match obj_get(o, "coin") {
            Some(JsonValue::Str(c)) => c.clone(),
            _ => {
                return None;
            },
        };
        let transfer_balance = match obj_get(o, "transferBalance") {
            Some(JsonValue::Str(t)) => t.clone(),
            _ => {
                return None;
            },
        };
        let wallet_balance = match obj_get(o, "walletBalance") {
            Some(JsonValue::Str(w)) => w.clone(),
            _ => {
                return None;
            },
        };
        let bonus = match obj_get(o, "bonus") {
            Some(JsonValue::Str(b)) => b.clone(),
            _ => {
                return None;
            },
        };
        Some(BybitBalance { coin, transfer_balance, wallet_balance, bonus })
    }
}

/// The models of all balances in a reply's `balance` array, or `None`
/// where any element has the wrong shape.
pub open spec fn balances_of(a: Seq<Json>) -> Option<Seq<BalanceModel>>
    decreases a.len(),
{
    if a.len() == 0 {
        Some(Seq::empty())
    } else {
        match (BybitBalance::json_to_model(a[0]), balances_of(a.drop_first())) {
            (Some(b), Some(rest)) => Some(seq![b] + rest),
            _ => None,
        }
    }
}

/// The models of a held balance list, elementwise.
pub open spec fn balance_views(bs: Seq<BybitBalance>) -> Seq<BalanceModel> {
    Seq::new(
        bs.len(),
        |i: int|
            if 0 <= i < bs.len() {
                bs[i]@
            } else {
                (Seq::empty(), Seq::empty(), Seq::empty(), Seq::empty())
            },
    )
}

/// Reads the balances of `a` from position `i` on.
fn balances_from(a: &Vec<JsonValue>, i: usize) -> (r: Option<Vec<BybitBalance>>)
    requires
        i <= a@.len(),
    ensures
        match r {
            Some(bs) => balances_of(views_of(a@).subrange(i as int, a@.len() as int)) == Some(
                balance_views(bs@),
            ),
            None => balances_of(views_of(a@).subrange(i as int, a@.len() as int)) is None,
        },
    decreases a@.len() - i,
{
    let ghost tail = views_of(a@).subrange(i as int, a@.len() as int);
    if i >= a.len() {
        let bs: Vec<BybitBalance> = Vec::new();
        proof {
            assert(balance_views(bs@) =~= Seq::<BalanceModel>::empty());
        }
        Some(bs)
    } else {
        proof {
            assert(tail[0] == a@[i as int]@);
            assert(tail.drop_first() =~= views_of(a@).subrange(i + 1 as int, a@.len() as int));
        }
        let first = match BybitBalance::from_json(&a[i]) {
            Some(b) => b,
            None => {
                return None;
            },
        };
        let mut rest = match balances_from(a, i + 1) {
            Some(bs) => bs,
            None => {
                return None;
            },
        };
        let ghost rest0 = rest@;
        rest.insert(0, first);
        proof {
            assert(balance_views(rest@) =~= seq![first@] + balance_views(rest0));
        }
        Some(rest)
    }
}

/// A funding-account snapshot: the account class, the member it belongs
/// to, and one entry per coin.
pub struct FundingBalance {
    pub account_type: AccountType,
    pub member_id: String,
    pub balance: Vec<BybitBalance>,
}

/// The model of a funding-account snapshot.
pub type FundingBalanceModel = (AccountType, Seq<char>, Seq<BalanceModel>);

impl View for FundingBalance {
    type V = FundingBalanceModel;

    open spec fn view(&self) -> FundingBalanceModel {
        (self.account_type, self.member_id@, balance_views(self.balance@))
    }
}

impl FromJson for FundingBalance {
    open spec fn json_to_model(j: Json) -> Option<FundingBalanceModel> {
        match j {
            Json::Obj(o) => match (
                crate::envelope::obj_lookup(o, "accountType"@),
                crate::envelope::obj_lookup(o, "memberId"@),
                crate::envelope::obj_lookup(o, "balance"@),
            ) {
                (Some(Json::Str(at)), Some(Json::Str(mid)), Some(Json::Arr(bal))) => match (
                    account_type_of(at),
                    balances_of(bal),
                ) {
                    (Some(a), Some(bs)) => Some((a, mid, bs)),
                    _ => None,
                },
                _ => None,
            },
            _ => None,
        }
    }

    fn from_json(v: &JsonValue) -> (r: Option<Self>) {
        let o = match v {
            JsonValue::Obj(o) => o,
            _ => {
                return None;
            },
        };
        let account_type = match obj_get(o, "accountType") {
            Some(JsonValue::Str(at)) => match AccountType::from_wire_name(at.as_str()) {
                Some(a) => a,
                None => {
                    return None;
                },
            },
            _ => {
                return None;
            },
        };
        let member_id = match obj_get(o, "memberId") {
            Some(JsonValue::Str(mid)) => mid.clone(),
            _ => {
                return None;
            },
        };
        let balance = match obj_get(o, "balance") {
            Some(JsonValue::Arr(bal)) => {
                proof {
                    assert(views_of(bal@).subrange(0, bal@.len() as int) =~= views_of(bal@));
                }
                match balances_from(bal, 0) {
                    Some(bs) => bs,
                    None => {
                        return None;
                    },
                }
            },
            _ => {
                return None;
            },
        };
        Some(FundingBalance { account_type, member_id, balance })
    }
}

/// The parameter object of a funding-balance request: the funding account
/// class, the coin where one is named, and bonus balances excluded.
pub open spec fn funding_params_model(coin: Option<Seq<char>>) -> Json {
    match coin {
        Some(c) => Json::Obj(
            seq![
                ("accountType"@, Json::Str("FUND"@)),
                ("coin"@, Json::Str(c)),
                ("withBonus"@, Json::Num(0)),
            ],
        ),
        None => Json::Obj(
            seq![("accountType"@, Json::Str("FUND"@)), ("withBonus"@, Json::Num(0))],
        ),
    }
}

/// The view of an optional string.
pub open spec fn opt_str_view(s: Option<String>) -> Option<Seq<char>> {
    match s {
        Some(c) => Some(c@),
        None => None,
    }
}

/// The query parameters of a funding-balance request.
pub struct FundingRequest {
    pub account_type: AccountType,
    pub coin: Option<String>,
    pub with_bonus: i64,
}

impl IntoGetRequest for FundingRequest {
    type Response = FundingBalance;

    open spec fn spec_domain() -> Seq<char> {
        MAINNET@
    }

    open spec fn spec_endpoint() -> Seq<char> {
        "/v5/asset/transfer/query-account-coins-balance"@
    }

    open spec fn spec_params(&self) -> Json {
        match self.coin {
            Some(c) => Json::Obj(
                seq![
                    ("accountType"@, Json::Str(account_type_chars(self.account_type))),
                    ("coin"@, Json::Str(c@)),
                    ("withBonus"@, Json::Num(self.with_bonus as int)),
                ],
            ),
            None => Json::Obj(
                seq![
                    ("accountType"@, Json::Str(account_type_chars(self.account_type))),
                    ("withBonus"@, Json::Num(self.with_bonus as int)),
                ],
            ),
        }
    }

    fn domain(&self) -> (r: String) {
        String::from_str(MAINNET)
    }

    fn endpoint(&self) -> (r: String) {
        String::from_str("/v5/asset/transfer/query-account-coins-balance")
    }

    fn params(&self) -> (r: JsonValue) {
        let mut members: Vec<(String, JsonValue)> = Vec::new();
        members.push(
            (String::from_str("accountType"), JsonValue::Str(self.account_type.wire_name())),
        );
        match &self.coin {
            Some(c) => members.push((String::from_str("coin"), JsonValue::Str(c.clone()))),
            None => {},
        }
        members.push((String::from_str("withBonus"), JsonValue::Num(self.with_bonus)));
        let r = JsonValue::Obj(members);
        proof {
            match &self.coin {
                Some(c) => {
                    assert(kv_views_of(members@) =~= seq![
                        ("accountType"@, Json::Str(account_type_chars(self.account_type))),
                        ("coin"@, Json::Str(c@)),
                        ("withBonus"@, Json::Num(self.with_bonus as int)),
                    ]);
                },
                None => {
                    assert(kv_views_of(members@) =~= seq![
                        ("accountType"@, Json::Str(account_type_chars(self.account_type))),
                        ("withBonus"@, Json::Num(self.with_bonus as int)),
                    ]);
                },
            }
        }
        r
    }
}

/// A credentialed client for the exchange.
#[derive(Debug, Clone)]
pub struct Client {
    pub api_key: String,
    pub secret: String,
}

impl Client {
    pub fn new(api_key: String, secret: String) -> (c: Client)
        ensures
            c.api_key@ == api_key@,
            c.secret@ == secret@,
    {
        Client { api_key, secret }
    }

    /// Builds the signed request for this member's funding-account coin
    /// balances, optionally restricted to one coin, without bonus balances.
    /// The parameters are plain scalars, so building always succeeds.
    pub fn get_funding_balance(&mut self, coin: Option<String>, recv_window_ms: u64) -> (r: Result<
        BybitRequest<FundingBalance>,
        EncodeError,
    >)
        ensures
            final(self).api_key@ == old(self).api_key@,
            final(self).secret@ == old(self).secret@,
            r is Ok,
            match r {
                Ok(req) => exists|ts: i64|
                    get_request_models(
                        req.request,
                        funding_params_model(opt_str_view(coin)),
                        MAINNET@,
                        "/v5/asset/transfer/query-account-coins-balance"@,
                        old(self).api_key@,
                        old(self).secret@,
                        recv_window_ms as int,
                        ts as int,
                    ),
                Err(_) => false,
            },
    {
        let request = FundingRequest { account_type: AccountType::FUND, coin, with_bonus: 0 };
        proof {
            assert(request.spec_params() == funding_params_model(opt_str_view(coin)));
            lemma_funding_params_encodable(opt_str_view(coin));
        }
        request.as_request(self.api_key.as_str(), self.secret.as_str(), recv_window_ms)
    }
}

/// A funding-balance parameter object always has a query encoding: its
/// values are scalars.
proof fn lemma_funding_params_encodable(coin: Option<Seq<char>>)
    ensures
        query_encodable(funding_params_model(coin)),
{
    match funding_params_model(coin) {
        Json::Obj(o) => {
            if coin is Some {
                assert(o.len() == 3);
                assert(query_chars(o.drop_first().drop_first()) is Some);
                assert(query_chars(o.drop_first()) is Some);
                assert(query_chars(o) is Some);
            } else {
                assert(o.len() == 2);
                assert(query_chars(o.drop_first()) is Some);
                assert(query_chars(o) is Some);
            }
        },
        _ => {
            assert(false);
        },
    }
}

} // verus!
