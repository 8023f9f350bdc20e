//! Request signing.
//!
//! The signature base string is the timestamp in epoch milliseconds, the
//! API key, the receive window in milliseconds, and the encoded parameters,
//! concatenated in that order with no separator. The signature is the
//! lowercase hex of the HMAC-SHA256 tag over that string, keyed by the
//! secret. It must match the exchange's recomputation byte for byte.
use vstd::prelude::*;

use crate::params::{wire_chars, EncodeError, Params};
use crate::text::{dec_chars, dec_chars_int, hex_chars, push_dec_i64, push_dec_u64, push_str_chars,
    string_from_chars};
use vstd::utf8::encode_utf8;

verus! {

/// The HMAC-SHA256 tag of a message under a key: a function of the two
/// byte sequences alone.
pub uninterp spec fn hmac_sha256_of(key: Seq<u8>, msg: Seq<u8>) -> Seq<u8>;

/// Relies on `ring::hmac::sign` with an `HMAC_SHA256` key: it computes the
/// 32-byte HMAC-SHA256 tag of the message under the key, which depends on
/// the two byte sequences alone.
#[verifier::external_body]
fn hmac_sha256(key: &[u8], msg: &[u8]) -> (r: Vec<u8>)
    ensures
        r@ == hmac_sha256_of(key@, msg@),
        r@.len() == 32,
{
    let k = ring::hmac::Key::new(ring::hmac::HMAC_SHA256, key);
    let tag = ring::hmac::sign(&k, msg);
    tag.as_ref().to_vec()
}

/// The signature base string.
pub open spec fn sign_base_chars(
    timestamp_ms: int,
    api_key: Seq<char>,
    recv_window_ms: int,
    params: Seq<char>,
) -> Seq<char> {
    dec_chars_int(timestamp_ms) + api_key + dec_chars_int(recv_window_ms) + params
}

/// The signature: lowercase hex of the HMAC-SHA256 tag over the base
/// string's UTF-8 bytes, keyed by the secret's UTF-8 bytes.
pub open spec fn signature_chars(
    secret: Seq<char>,
    timestamp_ms: int,
    api_key: Seq<char>,
    recv_window_ms: int,
    params: Seq<char>,
) -> Seq<char> {
    hex_chars(
        hmac_sha256_of(
            encode_utf8(secret),
            encode_utf8(sign_base_chars(timestamp_ms, api_key, recv_window_ms, params)),
        ),
    )
}

/// Signs a request: encodes the parameters, forms the base string for the
/// given timestamp, key and receive window, and returns the hex signature.
/// The same timestamp must later stand in the request's timestamp header.
pub fn sign(
    secret: &str,
    timestamp_ms: i64,
    api_key: &str,
    recv_window_ms: u64,
    params: &Params,
) -> (r: Result<String, EncodeError>)
    ensures
        match r {
            Ok(sig) => wire_chars(params) is Some && sig@ == signature_chars(
                secret@,
                timestamp_ms as int,
                api_key@,
                recv_window_ms as int,
                wire_chars(params)->Some_0,
            ),
            Err(_) => wire_chars(params) is None,
        },
{
    let encoded = match params.to_string() {
        Ok(s) => s,
        Err(e) => {
            return Err(e);
        },
    };
    let mut base: Vec<char> = Vec::new();
    push_dec_i64(&mut base, timestamp_ms);
    push_str_chars(&mut base, api_key);
    push_dec_u64(&mut base, recv_window_ms);
    proof {
        assert(dec_chars_int(recv_window_ms as int) == dec_chars(recv_window_ms as nat));
    }
    push_str_chars(&mut base, encoded.as_str());
    proof {
        assert(base@ =~= sign_base_chars(
            timestamp_ms as int,
            api_key@,
            recv_window_ms as int,
            encoded@,
        ));
    }
    let base_str = string_from_chars(base);
    let tag = hmac_sha256(secret.as_bytes(), base_str.as_str().as_bytes());
    let hex = crate::text::hex_of_bytes(tag.as_slice());
    Ok(string_from_chars(hex))
}

/// Appending the same suffix to two different sequences of the same total
/// length cannot hide the difference: right cancellation.
proof fn lemma_concat_cancel_right<A>(y1: Seq<A>, y2: Seq<A>, x: Seq<A>)
    requires
        y1 + x == y2 + x,
    ensures
        y1 == y2,
{
    assert((y1 + x).len() == y1.len() + x.len());
    assert((y2 + x).len() == y2.len() + x.len());
    assert(y1.len() == y2.len());
    assert(y1 =~= y2) by {
        assert forall|i: int| 0 <= i < y1.len() implies y1[i] == y2[i] by {
            assert(y2.len() == y1.len());
            assert((y1 + x)[i] == y1[i]);
            assert((y2 + x)[i] == y2[i]);
            assert((y1 + x)[i] == (y2 + x)[i]);
        }
    }
}

/// Left cancellation of a common prefix.
proof fn lemma_concat_cancel_left<A>(x: Seq<A>, y1: Seq<A>, y2: Seq<A>)
    requires
        x + y1 == x + y2,
    ensures
        y1 == y2,
{
    assert((x + y1).len() == x.len() + y1.len());
    assert((x + y2).len() == x.len() + y2.len());
    assert(y1.len() == y2.len());
    assert(y1 =~= y2) by {
        assert forall|i: int| 0 <= i < y1.len() implies y1[i] == y2[i] by {
            assert(y2.len() == y1.len());
            assert((x + y1)[x.len() + i] == y1[i]);
            assert((x + y2)[x.len() + i] == y2[i]);
            assert((x + y1)[x.len() + i] == (x + y2)[x.len() + i]);
        }
    }
}

/// The base string determines each of the four signed inputs once the other
/// three are fixed: changing exactly one input changes the base string,
/// despite the delimiter-free concatenation. No accidental collision can
/// arise from one field's suffix being mistaken for the next field's prefix.
pub proof fn lemma_sign_base_injective(
    ts1: int,
    key1: Seq<char>,
    w1: int,
    p1: Seq<char>,
    ts2: int,
    key2: Seq<char>,
    w2: int,
    p2: Seq<char>,
)
    requires
        sign_base_chars(ts1, key1, w1, p1) == sign_base_chars(ts2, key2, w2, p2),
    ensures
        key1 == key2 && w1 == w2 && p1 == p2 ==> ts1 == ts2,
        ts1 == ts2 && w1 == w2 && p1 == p2 ==> key1 == key2,
        ts1 == ts2 && key1 == key2 && p1 == p2 ==> w1 == w2,
        ts1 == ts2 && key1 == key2 && w1 == w2 ==> p1 == p2,
{
    if key1 == key2 && w1 == w2 && p1 == p2 {
        let r = key1 + dec_chars_int(w1) + p1;
        assert(dec_chars_int(ts1) + r =~= sign_base_chars(ts1, key1, w1, p1));
        assert(dec_chars_int(ts2) + r =~= sign_base_chars(ts2, key2, w2, p2));
        lemma_concat_cancel_right(dec_chars_int(ts1), dec_chars_int(ts2), r);
        crate::text::lemma_dec_chars_int_injective(ts1, ts2);
    }
    if ts1 == ts2 && w1 == w2 && p1 == p2 {
        let x = dec_chars_int(ts1);
        let r = dec_chars_int(w1) + p1;
        assert(x + (key1 + r) =~= sign_base_chars(ts1, key1, w1, p1));
        assert(x + (key2 + r) =~= sign_base_chars(ts2, key2, w2, p2));
        lemma_concat_cancel_left(x, key1 + r, key2 + r);
        lemma_concat_cancel_right(key1, key2, r);
    }
    if ts1 == ts2 && key1 == key2 && p1 == p2 {
        let x = dec_chars_int(ts1) + key1;
        assert(x + (dec_chars_int(w1) + p1) =~= sign_base_chars(ts1, key1, w1, p1));
        assert(x + (dec_chars_int(w2) + p2) =~= sign_base_chars(ts2, key2, w2, p2));
        lemma_concat_cancel_left(x, dec_chars_int(w1) + p1, dec_chars_int(w2) + p2);
        lemma_concat_cancel_right(dec_chars_int(w1), dec_chars_int(w2), p1);
        crate::text::lemma_dec_chars_int_injective(w1, w2);
    }
    if ts1 == ts2 && key1 == key2 && w1 == w2 {
        let x = dec_chars_int(ts1) + key1 + dec_chars_int(w1);
        assert(x + p1 =~= sign_base_chars(ts1, key1, w1, p1));
        assert(x + p2 =~= sign_base_chars(ts2, key2, w2, p2));
        lemma_concat_cancel_left(x, p1, p2);
    }
}

/// Two requests signed over the same secret, key, window and parameters at
/// two different timestamps sign two different base strings.
pub proof fn lemma_distinct_timestamps_distinct_base(
    ts1: int,
    ts2: int,
    key: Seq<char>,
    w: int,
    p: Seq<char>,
)
    requires
        ts1 != ts2,
    ensures
        sign_base_chars(ts1, key, w, p) != sign_base_chars(ts2, key, w, p),
{
    if sign_base_chars(ts1, key, w, p) == sign_base_chars(ts2, key, w, p) {
        lemma_sign_base_injective(ts1, key, w, p, ts2, key, w, p);
        assert(false);
    }
}

/// Signing is deterministic: any two signatures that meet `sign`'s contract
/// for the same five inputs are the same text.
pub proof fn lemma_sign_deterministic(
    secret: Seq<char>,
    ts: int,
    key: Seq<char>,
    w: int,
    p: Seq<char>,
    r1: Seq<char>,
    r2: Seq<char>,
)
    requires
        r1 == signature_chars(secret, ts, key, w, p),
        r2 == signature_chars(secret, ts, key, w, p),
    ensures
        r1 == r2,
{
}

} // verus!
