//! Building signed requests, one capability trait per HTTP verb.
//!
//! A read-style endpoint sends its parameters in the query string with an
//! empty body; a write-style endpoint sends them as a JSON body. Both attach
//! the same four authentication headers. A built request is complete and
//! immutable; building never mutates the endpoint value.
use vstd::prelude::*;

use crate::envelope::{FromJson, ResponseError};
use crate::json::{Json, JsonValue};
use crate::params::{EncodeError, Params};
use crate::query::query_chars;
use crate::sign::{sign, signature_chars};
use crate::text::{dec_chars, dec_chars_int, push_dec_i64, push_dec_u64, push_str_chars,
    string_from_chars};
use vstd::string::StringExecFns;

verus! {

/// The production host.
pub const MAINNET: &'static str = "https://api.bybit.com";

/// A fully materialized HTTP request with its authentication headers,
/// immutable once built.
pub struct SignedRequest {
    pub method: String,
    pub uri: String,
    pub headers: Vec<(String, String)>,
    pub body: String,
}

/// An inert, fully signed request, bound to the reply type it expects. A
/// caller-supplied transport executes it later and hands the raw reply
/// bytes to [`BybitRequest::decode`].
pub struct BybitRequest<T> {
    pub request: SignedRequest,
    pub response_type: core::marker::PhantomData<T>,
}

impl<T: FromJson> BybitRequest<T> {
    pub fn new(request: SignedRequest) -> (r: BybitRequest<T>)
        ensures
            r.request == request,
    {
        BybitRequest { request, response_type: core::marker::PhantomData }
    }

    /// Decodes reply bytes into the typed payload: the success envelope's
    /// `result` where `retCode` is zero, the application error where it is
    /// not, and a decode failure where the bytes match neither shape.
    pub fn decode(&self, bytes: &[u8]) -> (r: Result<T, ResponseError>)
        ensures
            match r {
                Ok(t) => crate::json::json_parse(bytes@) matches Some(v) && (
                crate::envelope::ret_code_of(v) == Some(0int) && (crate::envelope::envelope_fields(
                    v,
                ) matches Some((m, rj, ext, tm)) && T::json_to_model(rj) == Some(t@))),
                Err(ResponseError::Api(e)) => crate::json::json_parse(bytes@) matches Some(v) && (
                crate::envelope::ret_code_of(v) matches Some(c) && (c != 0 && e.code.0 as int == c
                    && (crate::envelope::error_fields(v) matches Some(m)
                    && crate::envelope::opt_string_models(e.message, m)))),
                Err(ResponseError::Decode) => match crate::json::json_parse(bytes@) {
                    None => true,
                    Some(v) => match crate::envelope::ret_code_of(v) {
                        None => true,
                        Some(c) => if c == 0 {
                            crate::envelope::envelope_fields(v) is None || (
                            crate::envelope::envelope_fields(v) matches Some((m, rj, ext, tm))
                                && T::json_to_model(rj) is None)
                        } else {
                            crate::envelope::error_fields(v) is None
                        },
                    },
                },
            },
    {
        match crate::envelope::decode_response::<T>(bytes) {
            Ok(resp) => Ok(resp.result),
            Err(e) => Err(e),
        }
    }
}

/// Relies on `chrono::Utc::now`: the current wall-clock time in epoch
/// milliseconds, read from the environment; nothing is assumed of the value.
#[verifier::external_body]
fn now_ms() -> i64 {
    chrono::Utc::now().timestamp_millis()
}

/// Whether a parameter model can travel in a query string: an object whose
/// values a query string can carry.
pub open spec fn query_encodable(params: Json) -> bool {
    match params {
        Json::Obj(o) => query_chars(o) is Some,
        _ => false,
    }
}

/// The four authentication headers, in order, for the given key, signature
/// text, timestamp, and receive window.
pub open spec fn auth_headers_model(
    headers: Seq<(String, String)>,
    key: Seq<char>,
    sig: Seq<char>,
    ts: int,
    w: int,
) -> bool {
    headers.len() == 4 && headers[0].0@ == "X-BAPI-API-KEY"@ && headers[0].1@ == key
        && headers[1].0@ == "X-BAPI-SIGN"@ && headers[1].1@ == sig && headers[2].0@
        == "X-BAPI-TIMESTAMP"@ && headers[2].1@ == dec_chars_int(ts) && headers[3].0@
        == "X-BAPI-RECV-WINDOW"@ && headers[3].1@ == dec_chars_int(w)
}

/// What a read-style request built at `ts` looks like: `GET`, the query
/// string appended to the URI after `?`, an empty body, and the four
/// headers carrying the signature over the same timestamp.
pub open spec fn get_request_models(
    req: SignedRequest,
    params: Json,
    domain: Seq<char>,
    endpoint: Seq<char>,
    key: Seq<char>,
    secret: Seq<char>,
    w: int,
    ts: int,
) -> bool {
    match params {
        Json::Obj(o) => match query_chars(o) {
            Some(q) => req.method@ == "GET"@ && req.uri@ == domain + endpoint + seq!['?'] + q
                && req.body@ == Seq::<char>::empty() && auth_headers_model(
                req.headers@,
                key,
                signature_chars(secret, ts, key, w, q),
                ts,
                w,
            ),
            None => false,
        },
        _ => false,
    }
}

/// What a write-style request built at `ts` looks like: `POST`, the bare
/// URI, the compact JSON body, and the four headers carrying the signature
/// over that body.
pub open spec fn post_request_models(
    req: SignedRequest,
    params: Json,
    domain: Seq<char>,
    endpoint: Seq<char>,
    key: Seq<char>,
    secret: Seq<char>,
    w: int,
    ts: int,
) -> bool {
    req.method@ == "POST"@ && req.uri@ == domain + endpoint && req.body@ == crate::json::json_chars(
        params,
    ) && auth_headers_model(
        req.headers@,
        key,
        signature_chars(secret, ts, key, w, crate::json::json_chars(params)),
        ts,
        w,
    )
}

/// Builds the four authentication headers.
fn build_auth_headers(key: &str, sig: String, timestamp_ms: i64, recv_window_ms: u64) -> (r: Vec<
    (String, String),
>)
    ensures
        auth_headers_model(r@, key@, sig@, timestamp_ms as int, recv_window_ms as int),
{
    let mut headers: Vec<(String, String)> = Vec::new();
    headers.push((String::from_str("X-BAPI-API-KEY"), String::from_str(key)));
    headers.push((String::from_str("X-BAPI-SIGN"), sig));
    let mut ts_cs: Vec<char> = Vec::new();
    push_dec_i64(&mut ts_cs, timestamp_ms);
    headers.push((String::from_str("X-BAPI-TIMESTAMP"), string_from_chars(ts_cs)));
    let mut w_cs: Vec<char> = Vec::new();
    push_dec_u64(&mut w_cs, recv_window_ms);
    headers.push((String::from_str("X-BAPI-RECV-WINDOW"), string_from_chars(w_cs)));
    proof {
        assert(dec_chars_int(recv_window_ms as int) == dec_chars(recv_window_ms as nat));
    }
    headers
}

/// A read-style endpoint: its parameters travel in the query string.
pub trait IntoGetRequest: Sized {
    /// The typed reply bound to this endpoint.
    type Response: FromJson;

    /// The exchange host.
    spec fn spec_domain() -> Seq<char>;

    /// The endpoint path.
    spec fn spec_endpoint() -> Seq<char>;

    /// The model of the parameter object this value serializes to.
    spec fn spec_params(&self) -> Json;

    fn domain(&self) -> (r: String)
        ensures
            r@ == Self::spec_domain(),
    ;

    fn endpoint(&self) -> (r: String)
        ensures
            r@ == Self::spec_endpoint(),
    ;

    fn params(&self) -> (r: JsonValue)
        ensures
            r@ == self.spec_params(),
    ;

    /// The endpoint's full URI, before any query string.
    fn uri(&self) -> (r: String)
        ensures
            r@ == Self::spec_domain() + Self::spec_endpoint(),
    {
        let mut cs: Vec<char> = Vec::new();
        push_str_chars(&mut cs, self.domain().as_str());
        push_str_chars(&mut cs, self.endpoint().as_str());
        string_from_chars(cs)
    }

    /// Builds the signed request for the given timestamp.
    fn as_request_at(
        &self,
        key: &str,
        secret: &str,
        recv_window_ms: u64,
        timestamp_ms: i64,
    ) -> (r: Result<BybitRequest<Self::Response>, EncodeError>)
        ensures
            match r {
                Ok(req) => get_request_models(
                    req.request,
                    self.spec_params(),
                    Self::spec_domain(),
                    Self::spec_endpoint(),
                    key@,
                    secret@,
                    recv_window_ms as int,
                    timestamp_ms as int,
                ),
                Err(_) => !query_encodable(self.spec_params()),
            },
    {
        let p = Params::Get(self.params());
        let encoded = match p.to_string() {
            Ok(s) => s,
            Err(e) => {
                return Err(e);
            },
        };
        let sig = match sign(secret, timestamp_ms, key, recv_window_ms, &p) {
            Ok(s) => s,
            Err(e) => {
                return Err(e);
            },
        };
        let mut uri_cs: Vec<char> = Vec::new();
        push_str_chars(&mut uri_cs, self.domain().as_str());
        push_str_chars(&mut uri_cs, self.endpoint().as_str());
        uri_cs.push('?');
        push_str_chars(&mut uri_cs, encoded.as_str());
        proof {
            assert(uri_cs@ =~= Self::spec_domain() + Self::spec_endpoint() + seq!['?']
                + encoded@);
        }
        let headers = build_auth_headers(key, sig, timestamp_ms, recv_window_ms);
        let request = SignedRequest {
            method: String::from_str("GET"),
            uri: string_from_chars(uri_cs),
            headers,
            body: String::new(),
        };
        Ok(BybitRequest::new(request))
    }

    /// Builds the signed request, capturing the current timestamp. The
    /// timestamp signed is the one placed in the timestamp header.
    fn as_request(&self, key: &str, secret: &str, recv_window_ms: u64) -> (r: Result<
        BybitRequest<Self::Response>,
        EncodeError,
    >)
        ensures
            match r {
                Ok(req) => exists|ts: i64|
                    get_request_models(
                        req.request,
                        self.spec_params(),
                        Self::spec_domain(),
                        Self::spec_endpoint(),
                        key@,
                        secret@,
                        recv_window_ms as int,
                        ts as int,
                    ),
                Err(_) => !query_encodable(self.spec_params()),
            },
    {
        let ts = now_ms();
        self.as_request_at(key, secret, recv_window_ms, ts)
    }
}

/// A write-style endpoint: its parameters travel as the JSON body.
pub trait IntoPostRequest: Sized {
    /// The typed reply bound to this endpoint.
    type Response: FromJson;

    /// The exchange host.
    spec fn spec_domain() -> Seq<char>;

    /// The endpoint path.
    spec fn spec_endpoint() -> Seq<char>;

    /// The model of the parameter object this value serializes to.
    spec fn spec_params(&self) -> Json;

    fn domain(&self) -> (r: String)
        ensures
            r@ == Self::spec_domain(),
    ;

    fn endpoint(&self) -> (r: String)
        ensures
            r@ == Self::spec_endpoint(),
    ;

    fn params(&self) -> (r: JsonValue)
        ensures
            r@ == self.spec_params(),
    ;

    /// The endpoint's full URI.
    fn uri(&self) -> (r: String)
        ensures
            r@ == Self::spec_domain() + Self::spec_endpoint(),
    {
        let mut cs: Vec<char> = Vec::new();
        push_str_chars(&mut cs, self.domain().as_str());
        push_str_chars(&mut cs, self.endpoint().as_str());
        string_from_chars(cs)
    }

    /// Builds the signed request for the given timestamp. A JSON body can
    /// carry any parameter value, so building never fails.
    fn as_request_at(
        &self,
        key: &str,
        secret: &str,
        recv_window_ms: u64,
        timestamp_ms: i64,
    ) -> (r: Result<BybitRequest<Self::Response>, EncodeError>)
        ensures
            match r {
                Ok(req) => post_request_models(
                    req.request,
                    self.spec_params(),
                    Self::spec_domain(),
                    Self::spec_endpoint(),
                    key@,
                    secret@,
                    recv_window_ms as int,
                    timestamp_ms as int,
                ),
                Err(_) => false,
            },
    {
        let params_value = self.params();
        let body = {
            let cs = crate::json::json_to_chars(&params_value);
            string_from_chars(cs)
        };
        let p = Params::Post(params_value);
        let sig = match sign(secret, timestamp_ms, key, recv_window_ms, &p) {
            Ok(s) => s,
            Err(e) => {
                return Err(e);
            },
        };
        let mut uri_cs: Vec<char> = Vec::new();
        push_str_chars(&mut uri_cs, self.domain().as_str());
        push_str_chars(&mut uri_cs, self.endpoint().as_str());
        let headers = build_auth_headers(key, sig, timestamp_ms, recv_window_ms);
        let request = SignedRequest {
            method: String::from_str("POST"),
            uri: string_from_chars(uri_cs),
            headers,
            body,
        };
        Ok(BybitRequest::new(request))
    }

    /// Builds the signed request, capturing the current timestamp. The
    /// timestamp signed is the one placed in the timestamp header.
    fn as_request(&self, key: &str, secret: &str, recv_window_ms: u64) -> (r: Result<
        BybitRequest<Self::Response>,
        EncodeError,
    >)
        ensures
            match r {
                Ok(req) => exists|ts: i64|
                    post_request_models(
                        req.request,
                        self.spec_params(),
                        Self::spec_domain(),
                        Self::spec_endpoint(),
                        key@,
                        secret@,
                        recv_window_ms as int,
                        ts as int,
                    ),
                Err(_) => false,
            },
    {
        let ts = now_ms();
        self.as_request_at(key, secret, recv_window_ms, ts)
    }
}

} // verus!
