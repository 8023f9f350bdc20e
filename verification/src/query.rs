//! URL query-string encoding for read-style requests.
//!
//! A parameter object is rendered as `key=value` pairs joined by `&`, in
//! declaration order. Keys and string values are percent-encoded over their
//! UTF-8 bytes: bytes outside the plain set become `%XX` with uppercase hex,
//! and a space becomes `+`. Booleans and integers render as their usual
//! text. A `null` value renders as a bare key with no `=`. Nested arrays and
//! objects cannot be represented in a query string.
use vstd::prelude::*;

use crate::json::{kv_views_of, Json, JsonValue};
use crate::text::{dec_chars_int, is_dec_char, lemma_dec_chars_int_digits, push_dec_i64};
use vstd::utf8::encode_utf8;

verus! {

/// The uppercase hex digit character.
pub open spec fn upper_hex_char(d: nat) -> char {
    if d == 0 {
        '0'
    } else if d == 1 {
        '1'
    } else if d == 2 {
        '2'
    } else if d == 3 {
        '3'
    } else if d == 4 {
        '4'
    } else if d == 5 {
        '5'
    } else if d == 6 {
        '6'
    } else if d == 7 {
        '7'
    } else if d == 8 {
        '8'
    } else if d == 9 {
        '9'
    } else if d == 10 {
        'A'
    } else if d == 11 {
        'B'
    } else if d == 12 {
        'C'
    } else if d == 13 {
        'D'
    } else if d == 14 {
        'E'
    } else {
        'F'
    }
}

fn upper_hex_char_exec(d: u8) -> (c: char)
    requires
        d < 16,
    ensures
        c == upper_hex_char(d as nat),
{
    if d == 0 {
        '0'
    } else if d == 1 {
        '1'
    } else if d == 2 {
        '2'
    } else if d == 3 {
        '3'
    } else if d == 4 {
        '4'
    } else if d == 5 {
        '5'
    } else if d == 6 {
        '6'
    } else if d == 7 {
        '7'
    } else if d == 8 {
        '8'
    } else if d == 9 {
        '9'
    } else if d == 10 {
        'A'
    } else if d == 11 {
        'B'
    } else if d == 12 {
        'C'
    } else if d == 13 {
        'D'
    } else if d == 14 {
        'E'
    } else {
        'F'
    }
}

/// A byte that stands for itself in a query string. Control bytes, the
/// space, non-ASCII bytes, and the delimiters `" # % & + < = > [ ]` do not.
pub open spec fn is_qs_plain(b: u8) -> bool {
    0x20 < b < 0x7f && b != 0x22 && b != 0x23 && b != 0x25 && b != 0x26 && b != 0x2b && b != 0x3c
        && b != 0x3d && b != 0x3e && b != 0x5b && b != 0x5d
}

/// How one byte appears in a query string.
pub open spec fn qs_byte_chars(b: u8) -> Seq<char> {
    if b == 0x20 {
        seq!['+']
    } else if is_qs_plain(b) {
        seq![b as char]
    } else {
        seq!['%', upper_hex_char((b / 16) as nat), upper_hex_char((b % 16) as nat)]
    }
}

/// A byte sequence, percent-encoded for a query string.
pub open spec fn qs_escape(bytes: Seq<u8>) -> Seq<char>
    decreases bytes.len(),
{
    if bytes.len() == 0 {
        Seq::empty()
    } else {
        qs_escape(bytes.drop_last()) + qs_byte_chars(bytes.last())
    }
}

/// Appends the percent-encoded form of `bytes`.
pub fn push_qs_escaped(out: &mut Vec<char>, bytes: &[u8])
    ensures
        final(out)@ == old(out)@ + qs_escape(bytes@),
{
    let mut i: usize = 0;
    while i < bytes.len()
        invariant
            i <= bytes@.len(),
            out@ == old(out)@ + qs_escape(bytes@.subrange(0, i as int)),
        decreases bytes@.len() - i,
    {
        let b = bytes[i];
        if b == 0x20 {
            out.push('+');
        } else if 0x20 < b && b < 0x7f && b != 0x22 && b != 0x23 && b != 0x25 && b != 0x26 && b
            != 0x2b && b != 0x3c && b != 0x3d && b != 0x3e && b != 0x5b && b != 0x5d {
            out.push(b as char);
        } else {
            out.push('%');
            out.push(upper_hex_char_exec(b / 16));
            out.push(upper_hex_char_exec(b % 16));
        }
        proof {
            let cur = bytes@.subrange(0, i + 1 as int);
            assert(cur.drop_last() =~= bytes@.subrange(0, i as int));
            assert(cur.last() == bytes@[i as int]);
            assert(out@ =~= old(out)@ + qs_escape(cur));
        }
        i += 1;
    }
    proof {
        assert(bytes@.subrange(0, bytes@.len() as int) =~= bytes@);
    }
}

/// How one scalar value appears after `=`; `None` for a value that a query
/// string cannot carry.
pub open spec fn qs_value_chars(v: Json) -> Option<Seq<char>> {
    match v {
        Json::Bool(b) => if b {
            Some(seq!['t', 'r', 'u', 'e'])
        } else {
            Some(seq!['f', 'a', 'l', 's', 'e'])
        },
        Json::Num(n) => Some(dec_chars_int(n)),
        Json::Str(sv) => Some(qs_escape(encode_utf8(sv))),
        _ => None,
    }
}

/// How one `(key, value)` pair appears: the escaped key, and `=` with the
/// value unless the value is `null`.
pub open spec fn qs_pair_chars(k: Seq<char>, v: Json) -> Option<Seq<char>> {
    if v is Null {
        Some(qs_escape(encode_utf8(k)))
    } else {
        match qs_value_chars(v) {
            Some(vc) => Some(qs_escape(encode_utf8(k)) + seq!['='] + vc),
            None => None,
        }
    }
}

/// The query string of an ordered parameter object, pairs joined by `&`.
pub open spec fn query_chars(o: Seq<(Seq<char>, Json)>) -> Option<Seq<char>>
    decreases o.len(),
{
    if o.len() == 0 {
        Some(Seq::empty())
    } else {
        match qs_pair_chars(o[0].0, o[0].1) {
            Some(pc) => if o.len() == 1 {
                Some(pc)
            } else {
                match query_chars(o.drop_first()) {
                    Some(rest) => Some(pc + seq!['&'] + rest),
                    None => None,
                }
            },
            None => None,
        }
    }
}

/// Renders the pairs of `o` from position `i` on.
fn query_encode_from(o: &Vec<(String, JsonValue)>, i: usize) -> (r: Option<Vec<char>>)
    requires
        i < o@.len(),
    ensures
        match r {
            Some(cs) => query_chars(kv_views_of(o@).subrange(i as int, o@.len() as int)) == Some(
                cs@,
            ),
            None => query_chars(kv_views_of(o@).subrange(i as int, o@.len() as int)) is None,
        },
    decreases o@.len() - i,
{
    let ghost tail = kv_views_of(o@).subrange(i as int, o@.len() as int);
    proof {
        assert(tail[0] == (o@[i as int].0@, o@[i as int].1@));
        assert(tail.drop_first() =~= kv_views_of(o@).subrange(i + 1 as int, o@.len() as int));
    }
    let mut cs: Vec<char> = Vec::new();
    push_qs_escaped(&mut cs, o[i].0.as_str().as_bytes());
    match &o[i].1 {
        JsonValue::Null => {},
        JsonValue::Bool(b) => {
            cs.push('=');
            if *b {
                cs.push('t');
                cs.push('r');
                cs.push('u');
                cs.push('e');
            } else {
                cs.push('f');
                cs.push('a');
                cs.push('l');
                cs.push('s');
                cs.push('e');
            }
        },
        JsonValue::Num(n) => {
            cs.push('=');
            push_dec_i64(&mut cs, *n);
        },
        JsonValue::Str(sv) => {
            cs.push('=');
            push_qs_escaped(&mut cs, sv.as_str().as_bytes());
        },
        JsonValue::Arr(_) => {
            return None;
        },
        JsonValue::Obj(_) => {
            return None;
        },
    }
    proof {
        assert(qs_pair_chars(tail[0].0, tail[0].1) == Some(cs@)) by {
            assert(cs@ =~= qs_pair_chars(tail[0].0, tail[0].1)->Some_0);
        }
    }
    let n = o.len();
    if i + 1 < n {
        match query_encode_from(o, i + 1) {
            Some(rest) => {
                let mut rest_v = rest;
                cs.push('&');
                cs.append(&mut rest_v);
                proof {
                    assert(query_chars(tail) == Some(cs@)) by {
                        assert(cs@ =~= query_chars(tail)->Some_0);
                    }
                }
                Some(cs)
            },
            None => None,
        }
    } else {
        proof {
            assert(tail.len() == 1);
        }
        Some(cs)
    }
}

/// The query string of a parameter object, or `None` where a value cannot
/// be carried in one.
pub fn query_encode(o: &Vec<(String, JsonValue)>) -> (r: Option<Vec<char>>)
    ensures
        match r {
            Some(cs) => query_chars(kv_views_of(o@)) == Some(cs@),
            None => query_chars(kv_views_of(o@)) is None,
        },
{
    if o.len() == 0 {
        let cs: Vec<char> = Vec::new();
        assert(kv_views_of(o@).len() == 0);
        assert(cs@ =~= Seq::<char>::empty());
        Some(cs)
    } else {
        let r = query_encode_from(o, 0);
        proof {
            assert(kv_views_of(o@).subrange(0, o@.len() as int) =~= kv_views_of(o@));
        }
        r
    }
}

/// The value of an uppercase hex digit character, or -1.
pub open spec fn upper_hex_val(c: char) -> int {
    if c == '0' {
        0
    } else if c == '1' {
        1
    } else if c == '2' {
        2
    } else if c == '3' {
        3
    } else if c == '4' {
        4
    } else if c == '5' {
        5
    } else if c == '6' {
        6
    } else if c == '7' {
        7
    } else if c == '8' {
        8
    } else if c == '9' {
        9
    } else if c == 'A' {
        10
    } else if c == 'B' {
        11
    } else if c == 'C' {
        12
    } else if c == 'D' {
        13
    } else if c == 'E' {
        14
    } else if c == 'F' {
        15
    } else {
        -1
    }
}

/// What a standard query-string decoder does to one encoded key or value:
/// `+` becomes a space, `%XX` becomes the byte, a plain character becomes
/// its own code.
pub open spec fn qs_unescape(cs: Seq<char>) -> Option<Seq<u8>>
    decreases cs.len(),
{
    if cs.len() == 0 {
        Some(Seq::empty())
    } else if cs.last() == '+' {
        match qs_unescape(cs.drop_last()) {
            Some(r) => Some(r.push(0x20)),
            None => None,
        }
    } else if cs.len() >= 3 && cs[cs.len() - 3] == '%' {
        let hi = upper_hex_val(cs[cs.len() - 2]);
        let lo = upper_hex_val(cs.last());
        if hi >= 0 && lo >= 0 {
            match qs_unescape(cs.subrange(0, cs.len() - 3)) {
                Some(r) => Some(r.push((hi * 16 + lo) as u8)),
                None => None,
            }
        } else {
            None
        }
    } else {
        let c = cs.last();
        if (c as u32) < 0x80 && is_qs_plain((c as u32) as u8) {
            match qs_unescape(cs.drop_last()) {
                Some(r) => Some(r.push((c as u32) as u8)),
                None => None,
            }
        } else {
            None
        }
    }
}

/// An escaped string never ends inside an escape: neither of its last two
/// characters is `%`.
proof fn lemma_qs_escape_tail(bytes: Seq<u8>)
    ensures
        qs_escape(bytes).len() >= 2 ==> qs_escape(bytes)[qs_escape(bytes).len() - 2] != '%',
        qs_escape(bytes).len() >= 1 ==> qs_escape(bytes).last() != '%',
    decreases bytes.len(),
{
    if bytes.len() > 0 {
        lemma_qs_escape_tail(bytes.drop_last());
    }
}

/// Percent-decoding undoes percent-encoding: a standard decoder recovers
/// the original bytes from an encoded key or value.
pub proof fn lemma_qs_escape_roundtrip(bytes: Seq<u8>)
    ensures
        qs_unescape(qs_escape(bytes)) == Some(bytes),
    decreases bytes.len(),
{
    if bytes.len() > 0 {
        let prefix = bytes.drop_last();
        let b = bytes.last();
        lemma_qs_escape_roundtrip(prefix);
        lemma_qs_escape_tail(prefix);
        let cs = qs_escape(bytes);
        if b == 0x20 {
            assert(cs.drop_last() =~= qs_escape(prefix));
            assert(bytes =~= prefix.push(b));
        } else if is_qs_plain(b) {
            assert(cs.last() == b as char);
            assert(cs.len() >= 3 ==> cs[cs.len() - 3] != '%');
            assert((b as char) as u32 == b);
            assert(cs.drop_last() =~= qs_escape(prefix));
            assert(bytes =~= prefix.push(b));
        } else {
            assert(cs.last() == upper_hex_char((b % 16) as nat));
            assert(cs[cs.len() - 2] == upper_hex_char((b / 16) as nat));
            assert(cs[cs.len() - 3] == '%');
            assert(upper_hex_val(upper_hex_char((b / 16) as nat)) == b / 16);
            assert(upper_hex_val(upper_hex_char((b % 16) as nat)) == b % 16);
            assert(cs.last() != '+');
            assert(cs.subrange(0, cs.len() - 3) =~= qs_escape(prefix));
            assert(bytes =~= prefix.push(b));
        }
    }
}

/// An escaped key or value never holds the separators `&` and `=`, so a
/// decoder that splits pairs on `&` and splits a pair at its first `=`
/// finds exactly the encoded fields.
pub proof fn lemma_qs_escape_no_separators(bytes: Seq<u8>, i: int)
    requires
        0 <= i < qs_escape(bytes).len(),
    ensures
        qs_escape(bytes)[i] != '&',
        qs_escape(bytes)[i] != '=',
    decreases bytes.len(),
{
    if bytes.len() > 0 {
        if i < qs_escape(bytes.drop_last()).len() {
            lemma_qs_escape_no_separators(bytes.drop_last(), i);
        }
    }
}

/// A `key=value` pair with a string value is recoverable: its text splits
/// unambiguously at its first `=`, holds no `&`, and a standard decoder
/// reads the original key and value characters back from the two sides.
pub proof fn lemma_qs_pair_recoverable(k: Seq<char>, s: Seq<char>)
    ensures
        qs_pair_chars(k, Json::Str(s)) is Some,
        ({
            let pc = qs_pair_chars(k, Json::Str(s))->Some_0;
            let kl = qs_escape(encode_utf8(k)).len() as int;
            &&& 0 <= kl < pc.len()
            &&& pc[kl] == '='
            &&& forall|i: int| 0 <= i < pc.len() ==> pc[i] != '&'
            &&& forall|i: int| 0 <= i < kl ==> pc[i] != '='
            &&& vstd::utf8::decode_utf8(
                qs_unescape(pc.subrange(0, kl))->Some_0,
            ) == k
            &&& vstd::utf8::decode_utf8(
                qs_unescape(pc.subrange(kl + 1, pc.len() as int))->Some_0,
            ) == s
        }),
{
    let ek = qs_escape(encode_utf8(k));
    let ev = qs_escape(encode_utf8(s));
    let pc = qs_pair_chars(k, Json::Str(s))->Some_0;
    let kl = ek.len() as int;
    assert(pc == ek + seq!['='] + ev);
    assert(pc.subrange(0, kl) =~= ek);
    assert(pc.subrange(kl + 1, pc.len() as int) =~= ev);
    assert forall|i: int| 0 <= i < pc.len() implies pc[i] != '&' by {
        if i < kl {
            lemma_qs_escape_no_separators(encode_utf8(k), i);
        } else if i > kl {
            lemma_qs_escape_no_separators(encode_utf8(s), i - kl - 1);
            assert(pc[i] == ev[i - kl - 1]);
        }
    }
    assert forall|i: int| 0 <= i < kl implies pc[i] != '=' by {
        lemma_qs_escape_no_separators(encode_utf8(k), i);
    }
    lemma_qs_escape_roundtrip(encode_utf8(k));
    lemma_qs_escape_roundtrip(encode_utf8(s));
    vstd::utf8::encode_utf8_decode_utf8(k);
    vstd::utf8::encode_utf8_decode_utf8(s);
}

/// The pieces of `cs` between `&` separators, in order: one piece where
/// there is no separator, and one more piece per separator.
pub open spec fn split_amp(cs: Seq<char>) -> Seq<Seq<char>>
    decreases cs.len(),
{
    if cs.len() == 0 {
        seq![Seq::empty()]
    } else if cs[0] == '&' {
        seq![Seq::empty()] + split_amp(cs.drop_first())
    } else {
        let rest = split_amp(cs.drop_first());
        seq![seq![cs[0]] + rest[0]] + rest.drop_first()
    }
}

/// Splitting a string with no separator yields that one piece.
proof fn lemma_split_amp_single(a: Seq<char>)
    requires
        forall|i: int| 0 <= i < a.len() ==> a[i] != '&',
    ensures
        split_amp(a) == seq![a],
    decreases a.len(),
{
    if a.len() > 0 {
        lemma_split_amp_single(a.drop_first());
        assert(seq![a[0]] + a.drop_first() =~= a);
    }
    assert(split_amp(a) =~~= seq![a]);
}

/// Splitting at a separator after a separator-free piece peels that piece.
proof fn lemma_split_amp_concat(a: Seq<char>, b: Seq<char>)
    requires
        forall|i: int| 0 <= i < a.len() ==> a[i] != '&',
    ensures
        split_amp(a + seq!['&'] + b) == seq![a] + split_amp(b),
    decreases a.len(),
{
    let cs = a + seq!['&'] + b;
    if a.len() == 0 {
        assert(cs.drop_first() =~= b);
        assert(split_amp(cs) =~~= seq![a] + split_amp(b));
    } else {
        assert(cs[0] == a[0]);
        assert(cs.drop_first() =~= a.drop_first() + seq!['&'] + b);
        lemma_split_amp_concat(a.drop_first(), b);
        let rest = split_amp(cs.drop_first());
        assert(rest[0] == a.drop_first());
        assert(seq![cs[0]] + rest[0] =~= a);
        assert(rest.drop_first() =~~= split_amp(b));
        assert(split_amp(cs) =~~= seq![a] + split_amp(b));
    }
}

/// A rendered pair holds no `&`: the separator cannot be forged from
/// inside a key or a value.
proof fn lemma_pair_chars_amp_free(k: Seq<char>, v: Json, i: int)
    requires
        qs_pair_chars(k, v) is Some,
        0 <= i < qs_pair_chars(k, v)->Some_0.len(),
    ensures
        qs_pair_chars(k, v)->Some_0[i] != '&',
{
    let ek = qs_escape(encode_utf8(k));
    let kl = ek.len() as int;
    if v is Null {
        lemma_qs_escape_no_separators(encode_utf8(k), i);
    } else {
        let pc = qs_pair_chars(k, v)->Some_0;
        let vc = qs_value_chars(v)->Some_0;
        assert(pc == ek + seq!['='] + vc);
        if i < kl {
            lemma_qs_escape_no_separators(encode_utf8(k), i);
            assert(pc[i] == ek[i]);
        } else if i > kl {
            assert(pc[i] == vc[i - kl - 1]);
            match v {
                Json::Bool(_) => {},
                Json::Num(n) => {
                    lemma_dec_chars_int_digits(n, i - kl - 1);
                    assert(is_dec_char(vc[i - kl - 1]));
                },
                Json::Str(sv) => {
                    lemma_qs_escape_no_separators(encode_utf8(sv), i - kl - 1);
                },
                _ => {},
            }
        }
    }
}

/// The query string of a parameter object splits on `&` into exactly the
/// pair texts, in declaration order: the fields are recoverable, and with
/// [`lemma_qs_pair_recoverable`] so are their values.
pub proof fn lemma_query_chars_split(o: Seq<(Seq<char>, Json)>)
    requires
        o.len() > 0,
        query_chars(o) is Some,
    ensures
        split_amp(query_chars(o)->Some_0).len() == o.len(),
        forall|i: int| 0 <= i < o.len() ==> (#[trigger] qs_pair_chars(o[i].0, o[i].1)) is Some,
        forall|i: int|
            0 <= i < o.len() ==> #[trigger] split_amp(query_chars(o)->Some_0)[i] == qs_pair_chars(
                o[i].0,
                o[i].1,
            )->Some_0,
    decreases o.len(),
{
    let pc = qs_pair_chars(o[0].0, o[0].1)->Some_0;
    assert(qs_pair_chars(o[0].0, o[0].1) is Some);
    assert forall|i: int| 0 <= i < pc.len() implies pc[i] != '&' by {
        lemma_pair_chars_amp_free(o[0].0, o[0].1, i);
    }
    if o.len() == 1 {
        lemma_split_amp_single(pc);
        assert forall|i: int| 0 <= i < o.len() implies (#[trigger] qs_pair_chars(o[i].0, o[i].1))
            is Some && split_amp(query_chars(o)->Some_0)[i] == qs_pair_chars(
            o[i].0,
            o[i].1,
        )->Some_0 by {
            assert(i == 0);
            assert(split_amp(query_chars(o)->Some_0)[0] == pc);
        }
    } else {
        let rest = o.drop_first();
        let rest_q = query_chars(rest)->Some_0;
        lemma_query_chars_split(rest);
        lemma_split_amp_concat(pc, rest_q);
        assert forall|i: int| 0 <= i < o.len() implies (#[trigger] qs_pair_chars(o[i].0, o[i].1))
            is Some && split_amp(query_chars(o)->Some_0)[i] == qs_pair_chars(
            o[i].0,
            o[i].1,
        )->Some_0 by {
            if i == 0 {
                assert(split_amp(query_chars(o)->Some_0)[0] == pc);
            } else {
                assert(rest[i - 1] == o[i]);
                assert(split_amp(rest_q)[i - 1] == qs_pair_chars(rest[i - 1].0, rest[i - 1].1)->Some_0);
                assert(qs_pair_chars(rest[i - 1].0, rest[i - 1].1) is Some);
                assert(split_amp(query_chars(o)->Some_0)[i] == split_amp(rest_q)[i - 1]);
            }
        }
    }
}

} // verus!
