//! The exchange's reply envelope, and the rule that tells success from an
//! in-band error.
//!
//! Every reply arrives with HTTP status 200. The same JSON object shape
//! carries both outcomes; only the numeric `retCode` field differs. A reply
//! decodes as the success envelope exactly when `retCode` is zero, and as an
//! application error exactly when it is not; bytes matching neither shape
//! are a decode failure, never a silent default.
use vstd::prelude::*;

use crate::json::{json_parse, kv_views_of, Json, JsonValue};
use crate::text::{dec_chars_int, push_dec_i64, push_str_chars, string_from_chars};

verus! {

/// Why a reply could not be turned into a success payload.
pub enum ResponseError {
    /// The bytes match neither the success envelope nor the error shape.
    Decode,
    /// The exchange reported an in-band error: `retCode` was not zero.
    Api(BybitError),
}

/// The generic shape of a successful reply.
pub struct Response<T> {
    pub return_code: i32,
    pub return_message: String,
    pub result: T,
    pub return_extended_info: Option<JsonValue>,
    pub time: u64,
}

/// A non-zero application result code. Zero never inhabits this type: a
/// zero code is the success envelope, not an error.
pub struct BybitErrorCode(pub i32);

/// An in-band error reported by the exchange: a non-zero code and an
/// optional message.
pub struct BybitError {
    pub code: BybitErrorCode,
    pub message: Option<String>,
}

/// A type that can be read out of the `result` field of a reply.
pub trait FromJson: View + Sized {
    /// The model this type reads from a JSON document, if the document has
    /// the right shape.
    spec fn json_to_model(j: Json) -> Option<Self::V>;

    /// Reads a value out of a JSON document.
    fn from_json(v: &JsonValue) -> (r: Option<Self>)
        ensures
            match r {
                Some(t) => Self::json_to_model(v@) == Some(t@),
                None => Self::json_to_model(v@) is None,
            },
    ;
}

/// The value of `key` in an object's members, first occurrence winning.
pub open spec fn obj_lookup(o: Seq<(Seq<char>, Json)>, key: Seq<char>) -> Option<Json>
    decreases o.len(),
{
    if o.len() == 0 {
        None
    } else if o[0].0 == key {
        Some(o[0].1)
    } else {
        obj_lookup(o.drop_first(), key)
    }
}

/// The `retCode` of a reply: present, an integer, and within `i32`.
pub open spec fn ret_code_of(v: Json) -> Option<int> {
    match v {
        Json::Obj(o) => match obj_lookup(o, "retCode"@) {
            Some(Json::Num(c)) => if -0x80000000 <= c <= 0x7fffffff {
                Some(c)
            } else {
                None
            },
            _ => None,
        },
        _ => None,
    }
}

/// The fields of the success envelope: message, result document, optional
/// extended info (absent or `null` both count as absent), and time.
pub open spec fn envelope_fields(v: Json) -> Option<(Seq<char>, Json, Option<Json>, int)> {
    match v {
        Json::Obj(o) => match (obj_lookup(o, "retMsg"@), obj_lookup(o, "result"@), obj_lookup(
            o,
            "time"@,
        )) {
            (Some(Json::Str(m)), Some(rj), Some(Json::Num(t))) => if 0 <= t {
                match obj_lookup(o, "retExtInfo"@) {
                    Some(Json::Null) => Some((m, rj, None, t)),
                    Some(x) => Some((m, rj, Some(x), t)),
                    None => Some((m, rj, None, t)),
                }
            } else {
                None
            },
            _ => None,
        },
        _ => None,
    }
}

/// The fields of the error shape: the message, where `retMsg` is absent,
/// `null`, or a string.
pub open spec fn error_fields(v: Json) -> Option<Option<Seq<char>>> {
    match v {
        Json::Obj(o) => match obj_lookup(o, "retMsg"@) {
            Some(Json::Str(m)) => Some(Some(m)),
            Some(Json::Null) => Some(None),
            None => Some(None),
            _ => None,
        },
        _ => None,
    }
}

/// Whether an optional held document models an optional JSON value.
pub open spec fn opt_value_models(x: Option<JsonValue>, m: Option<Json>) -> bool {
    match (x, m) {
        (Some(xv), Some(mj)) => xv@ == mj,
        (None, None) => true,
        _ => false,
    }
}

/// Whether an optional held string models an optional character sequence.
pub open spec fn opt_string_models(x: Option<String>, m: Option<Seq<char>>) -> bool {
    match (x, m) {
        (Some(xs), Some(mc)) => xs@ == mc,
        (None, None) => true,
        _ => false,
    }
}

/// Compares two strings by their characters.
pub fn chars_eq(a: &str, b: &str) -> (r: bool)
    ensures
        r == (a@ == b@),
{
    let na = a.unicode_len();
    let nb = b.unicode_len();
    if na != nb {
        return false;
    }
    let mut i: usize = 0;
    while i < na
        invariant
            i <= na,
            na == a@.len(),
            na == b@.len(),
            forall|k: int| 0 <= k < i ==> a@[k] == b@[k],
        decreases na - i,
    {
        if a.get_char(i) != b.get_char(i) {
            return false;
        }
        i += 1;
    }
    proof {
        assert(a@ =~= b@);
    }
    true
}

/// Looks `key` up among an object's members, first occurrence winning.
pub fn obj_get<'a>(o: &'a Vec<(String, JsonValue)>, key: &str) -> (r: Option<&'a JsonValue>)
    ensures
        match r {
            Some(x) => obj_lookup(kv_views_of(o@), key@) == Some(x@),
            None => obj_lookup(kv_views_of(o@), key@) is None,
        },
{
    let ghost whole = kv_views_of(o@);
    proof {
        assert(kv_views_of(o@).subrange(0, o@.len() as int) =~= whole);
    }
    let mut i: usize = 0;
    while i < o.len()
        invariant
            i <= o@.len(),
            whole == kv_views_of(o@),
            obj_lookup(whole, key@) == obj_lookup(
                kv_views_of(o@).subrange(i as int, o@.len() as int),
                key@,
            ),
        decreases o@.len() - i,
    {
        let ghost tail = kv_views_of(o@).subrange(i as int, o@.len() as int);
        proof {
            assert(tail[0] == (o@[i as int].0@, o@[i as int].1@));
            assert(tail.drop_first() =~= kv_views_of(o@).subrange(i + 1 as int, o@.len() as int));
        }
        if chars_eq(o[i].0.as_str(), key) {
            return Some(&o[i].1);
        }
        i += 1;
    }
    proof {
        assert(kv_views_of(o@).subrange(o@.len() as int, o@.len() as int).len() == 0);
    }
    None
}

/// A deep copy of a JSON document, with the same model.
pub fn clone_json(v: &JsonValue) -> (r: JsonValue)
    ensures
        r@ == v@,
    decreases *v, 1int,
{
    match v {
        JsonValue::Null => JsonValue::Null,
        JsonValue::Bool(b) => JsonValue::Bool(*b),
        JsonValue::Num(n) => JsonValue::Num(*n),
        JsonValue::Str(s) => JsonValue::Str(s.clone()),
        JsonValue::Arr(a) => {
            let out = clone_arr_from(a, 0);
            let r = JsonValue::Arr(out);
            proof {
                assert(crate::json::views_of(out@) =~= crate::json::views_of(a@));
            }
            r
        },
        JsonValue::Obj(o) => {
            let out = clone_obj_from(o, 0);
            let r = JsonValue::Obj(out);
            proof {
                assert(kv_views_of(out@) =~= kv_views_of(o@));
            }
            r
        },
    }
}

/// Deep copies of the elements of `a` from position `i` on.
fn clone_arr_from(a: &Vec<JsonValue>, i: usize) -> (r: Vec<JsonValue>)
    requires
        i <= a@.len(),
    ensures
        r@.len() == a@.len() - i,
        forall|k: int| 0 <= k < r@.len() ==> r@[k]@ == a@[i + k]@,
    decreases a@, a@.len() - i,
{
    if i < a.len() {
        let first = clone_json(&a[i]);
        let mut rest = clone_arr_from(a, i + 1);
        rest.insert(0, first);
        rest
    } else {
        Vec::new()
    }
}

/// Deep copies of the members of `o` from position `i` on.
fn clone_obj_from(o: &Vec<(String, JsonValue)>, i: usize) -> (r: Vec<(String, JsonValue)>)
    requires
        i <= o@.len(),
    ensures
        r@.len() == o@.len() - i,
        forall|k: int|
            0 <= k < r@.len() ==> r@[k].0@ == o@[i + k].0@ && r@[k].1@ == o@[i + k].1@,
    decreases o@, o@.len() - i,
{
    if i < o.len() {
        let member = &o[i];
        let first = (member.0.clone(), clone_json(&member.1));
        let mut rest = clone_obj_from(o, i + 1);
        rest.insert(0, first);
        rest
    } else {
        Vec::new()
    }
}

impl BybitErrorCode {
    /// Reads a result code out of a JSON document, refusing zero: a zero
    /// code is the success envelope in disguise.
    pub fn from_json(v: &JsonValue) -> (r: Option<BybitErrorCode>)
        ensures
            match r {
                Some(c) => v@ matches Json::Num(n) && -0x80000000 <= n <= 0x7fffffff && n != 0
                    && c.0 as int == n,
                None => !(v@ matches Json::Num(n) && -0x80000000 <= n <= 0x7fffffff && n != 0),
            },
    {
        match v {
            JsonValue::Num(n) => {
                let n = *n;
                if n == 0 || n < -0x80000000i64 || n > 0x7fffffffi64 {
                    None
                } else {
                    Some(BybitErrorCode(n as i32))
                }
            },
            _ => None,
        }
    }
}

impl BybitError {
    /// The error's presentation text: `BybitError: <message or N/A> (<code>)`.
    pub fn to_string(&self) -> (r: String)
        ensures
            r@ == "BybitError: "@ + (match self.message {
                Some(m) => m@,
                None => "N/A"@,
            }) + " ("@ + dec_chars_int(self.code.0 as int) + ")"@,
    {
        let mut out: Vec<char> = Vec::new();
        push_str_chars(&mut out, "BybitError: ");
        match &self.message {
            Some(m) => push_str_chars(&mut out, m.as_str()),
            None => push_str_chars(&mut out, "N/A"),
        }
        push_str_chars(&mut out, " (");
        push_dec_i64(&mut out, self.code.0 as i64);
        push_str_chars(&mut out, ")");
        string_from_chars(out)
    }
}

/// Decodes a reply: parses the bytes as JSON, reads `retCode`, and then
/// reads the success envelope where the code is zero and the error shape
/// where it is not. Bytes matching neither shape give `Decode`, never a
/// silent default.
pub fn decode_response<T: FromJson>(bytes: &[u8]) -> (r: Result<Response<T>, ResponseError>)
    ensures
        match r {
            Ok(resp) => json_parse(bytes@) matches Some(v) && (ret_code_of(v) == Some(0int)
                && (envelope_fields(v) matches Some((m, rj, ext, t)) && (resp.return_code == 0
                && resp.return_message@ == m && T::json_to_model(rj) == Some(resp.result@)
                && opt_value_models(resp.return_extended_info, ext) && resp.time as int == t))),
            Err(ResponseError::Api(e)) => json_parse(bytes@) matches Some(v) && (ret_code_of(v)
                matches Some(c) && (c != 0 && e.code.0 as int == c && (error_fields(v)
                matches Some(m) && opt_string_models(e.message, m)))),
            Err(ResponseError::Decode) => match json_parse(bytes@) {
                None => true,
                Some(v) => match ret_code_of(v) {
                    None => true,
                    Some(c) => if c == 0 {
                        envelope_fields(v) is None || (envelope_fields(v) matches Some(
                            (m, rj, ext, t),
                        ) && T::json_to_model(rj) is None)
                    } else {
                        error_fields(v) is None
                    },
                },
            },
        },
{
    let v = match crate::json::json_from_bytes(bytes) {
        Some(v) => v,
        None => {
            return Err(ResponseError::Decode);
        },
    };
    let o = match &v {
        JsonValue::Obj(o) => o,
        _ => {
            return Err(ResponseError::Decode);
        },
    };
    let code_value = match obj_get(o, "retCode") {
        Some(cv) => cv,
        None => {
            return Err(ResponseError::Decode);
        },
    };
    let code = match code_value {
        JsonValue::Num(n) => {
            let n = *n;
            if n < -0x80000000i64 || n > 0x7fffffffi64 {
                return Err(ResponseError::Decode);
            }
            n as i32
        },
        _ => {
            return Err(ResponseError::Decode);
        },
    };
    if code != 0 {
        let error_code = match BybitErrorCode::from_json(code_value) {
            Some(c) => c,
            None => {
                return Err(ResponseError::Decode);
            },
        };
        let message: Option<String> = match obj_get(o, "retMsg") {
            Some(mv) => match mv {
                JsonValue::Str(m) => Some(m.clone()),
                JsonValue::Null => None,
                _ => {
                    return Err(ResponseError::Decode);
                },
            },
            None => None,
        };
        return Err(ResponseError::Api(BybitError { code: error_code, message }));
    }
    let message = match obj_get(o, "retMsg") {
        Some(mv) => match mv {
            JsonValue::Str(m) => m.clone(),
            _ => {
                return Err(ResponseError::Decode);
            },
        },
        None => {
            return Err(ResponseError::Decode);
        },
    };
    let result_json = match obj_get(o, "result") {
        Some(rv) => rv,
        None => {
            return Err(ResponseError::Decode);
        },
    };
    let time: u64 = match obj_get(o, "time") {
        Some(tv) => match tv {
            JsonValue::Num(t) => {
                let t = *t;
                if t < 0 {
                    return Err(ResponseError::Decode);
                }
                t as u64
            },
            _ => {
                return Err(ResponseError::Decode);
            },
        },
        None => {
            return Err(ResponseError::Decode);
        },
    };
    let ext: Option<JsonValue> = match obj_get(o, "retExtInfo") {
        Some(xv) => match xv {
            JsonValue::Null => None,
            _ => Some(clone_json(xv)),
        },
        None => None,
    };
    let result: T = match T::from_json(result_json) {
        Some(t) => t,
        None => {
            return Err(ResponseError::Decode);
        },
    };
    Ok(Response { return_code: 0, return_message: message, result, return_extended_info: ext, time })
}

} // verus!
