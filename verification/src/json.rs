//! A JSON value model, a compact serializer, and a parser.
//!
//! The exchange replies with a JSON envelope, and write-style requests carry
//! a JSON body, so the wire grammar is part of this library's own logic.
//! Numbers are restricted to integers that fit in `i64`; string source text
//! is ASCII, with arbitrary characters reachable through `\uXXXX` escapes.
use vstd::prelude::*;

use crate::text::{dec_chars_int, digit_char, digit_char_exec, push_dec_i64};

verus! {

/// The mathematical model of a JSON document.
#[verifier::ext_equal]
pub enum Json {
    Null,
    Bool(bool),
    Num(int),
    Str(Seq<char>),
    Arr(Seq<Json>),
    Obj(Seq<(Seq<char>, Json)>),
}

/// A JSON document as runtime data. Object members keep their order.
pub enum JsonValue {
    Null,
    Bool(bool),
    Num(i64),
    Str(String),
    Arr(Vec<JsonValue>),
    Obj(Vec<(String, JsonValue)>),
}

/// The models of a sequence of values, elementwise.
pub open spec fn views_of(a: Seq<JsonValue>) -> Seq<Json>
    decreases a,
{
    Seq::new(
        a.len(),
        |i: int|
            if 0 <= i < a.len() {
                a[i]@
            } else {
                Json::Null
            },
    )
}

/// The models of a sequence of members, elementwise.
pub open spec fn kv_views_of(o: Seq<(String, JsonValue)>) -> Seq<(Seq<char>, Json)>
    decreases o,
{
    Seq::new(
        o.len(),
        |i: int|
            if 0 <= i < o.len() {
                (o[i].0@, o[i].1@)
            } else {
                (Seq::empty(), Json::Null)
            },
    )
}

impl View for JsonValue {
    type V = Json;

    open spec fn view(&self) -> Json
        decreases self,
    {
        match self {
            JsonValue::Null => Json::Null,
            JsonValue::Bool(b) => Json::Bool(*b),
            JsonValue::Num(n) => Json::Num(*n as int),
            JsonValue::Str(s) => Json::Str(s@),
            JsonValue::Arr(a) => Json::Arr(views_of(a@)),
            JsonValue::Obj(o) => Json::Obj(kv_views_of(o@)),
        }
    }
}

/// How one character appears inside a JSON string literal: `"` and `\` and
/// the common control characters by their two-character escapes, other
/// control characters as `\u00XX`, everything else as itself.
pub open spec fn esc_char(c: char) -> Seq<char> {
    if c == '"' {
        seq!['\\', '"']
    } else if c == '\\' {
        seq!['\\', '\\']
    } else if c == '\u{8}' {
        seq!['\\', 'b']
    } else if c == '\t' {
        seq!['\\', 't']
    } else if c == '\n' {
        seq!['\\', 'n']
    } else if c == '\u{c}' {
        seq!['\\', 'f']
    } else if c == '\r' {
        seq!['\\', 'r']
    } else if (c as u32) < 0x20 {
        seq!['\\', 'u', '0', '0', digit_char(((c as u32) / 16) as nat), digit_char(
            ((c as u32) % 16) as nat,
        )]
    } else {
        seq![c]
    }
}

/// A whole string body, escaped.
pub open spec fn esc_chars(s: Seq<char>) -> Seq<char>
    decreases s.len(),
{
    if s.len() == 0 {
        Seq::empty()
    } else {
        esc_chars(s.drop_last()) + esc_char(s.last())
    }
}

/// The compact rendering of a JSON document: no whitespace, members in
/// order, integers in decimal.
pub open spec fn json_chars(j: Json) -> Seq<char>
    decreases j, 1int,
{
    match j {
        Json::Null => seq!['n', 'u', 'l', 'l'],
        Json::Bool(b) => if b {
            seq!['t', 'r', 'u', 'e']
        } else {
            seq!['f', 'a', 'l', 's', 'e']
        },
        Json::Num(n) => dec_chars_int(n),
        Json::Str(s) => seq!['"'] + esc_chars(s) + seq!['"'],
        Json::Arr(a) => seq!['['] + arr_body_chars(a) + seq![']'],
        Json::Obj(o) => seq!['{'] + obj_body_chars(o) + seq!['}'],
    }
}

/// The comma-separated renderings of array elements.
pub open spec fn arr_body_chars(a: Seq<Json>) -> Seq<char>
    decreases a, 0int,
{
    if a.len() == 0 {
        Seq::empty()
    } else if a.len() == 1 {
        json_chars(a[0])
    } else {
        json_chars(a[0]) + seq![','] + arr_body_chars(a.drop_first())
    }
}

/// The comma-separated renderings of object members, each `"key":value`.
pub open spec fn obj_body_chars(o: Seq<(Seq<char>, Json)>) -> Seq<char>
    decreases o, 0int,
{
    if o.len() == 0 {
        Seq::empty()
    } else {
        let m = seq!['"'] + esc_chars(o[0].0) + seq!['"', ':'] + json_chars(o[0].1);
        if o.len() == 1 {
            m
        } else {
            m + seq![','] + obj_body_chars(o.drop_first())
        }
    }
}

/// Appends the escaped form of one character.
fn push_esc_char(out: &mut Vec<char>, c: char)
    ensures
        final(out)@ == old(out)@ + esc_char(c),
{
    if c == '"' {
        out.push('\\');
        out.push('"');
    } else if c == '\\' {
        out.push('\\');
        out.push('\\');
    } else if c == '\u{8}' {
        out.push('\\');
        out.push('b');
    } else if c == '\t' {
        out.push('\\');
        out.push('t');
    } else if c == '\n' {
        out.push('\\');
        out.push('n');
    } else if c == '\u{c}' {
        out.push('\\');
        out.push('f');
    } else if c == '\r' {
        out.push('\\');
        out.push('r');
    } else {
        let u = c as u32;
        if u < 0x20 {
            out.push('\\');
            out.push('u');
            out.push('0');
            out.push('0');
            out.push(digit_char_exec((u / 16) as u64));
            out.push(digit_char_exec((u % 16) as u64));
        } else {
            out.push(c);
        }
    }
    assert(out@ =~= old(out)@ + esc_char(c));
}

/// Appends the escaped body of a string literal.
fn push_esc_str(out: &mut Vec<char>, s: &str)
    ensures
        final(out)@ == old(out)@ + esc_chars(s@),
{
    let n = s.unicode_len();
    let mut i: usize = 0;
    while i < n
        invariant
            i <= n,
            n == s@.len(),
            out@ == old(out)@ + esc_chars(s@.subrange(0, i as int)),
        decreases n - i,
    {
        push_esc_char(out, s.get_char(i));
        proof {
            let cur = s@.subrange(0, i + 1 as int);
            assert(cur.drop_last() =~= s@.subrange(0, i as int));
            assert(cur.last() == s@[i as int]);
        }
        i += 1;
    }
    proof {
        assert(s@.subrange(0, s@.len() as int) =~= s@);
    }
}

/// Appends the compact rendering of `v`.
pub fn push_json(out: &mut Vec<char>, v: &JsonValue)
    ensures
        final(out)@ == old(out)@ + json_chars(v@),
    decreases *v, 1int,
{
    match v {
        JsonValue::Null => {
            out.push('n');
            out.push('u');
            out.push('l');
            out.push('l');
            assert(out@ =~= old(out)@ + json_chars(v@));
        },
        JsonValue::Bool(b) => {
            if *b {
                out.push('t');
                out.push('r');
                out.push('u');
                out.push('e');
            } else {
                out.push('f');
                out.push('a');
                out.push('l');
                out.push('s');
                out.push('e');
            }
            assert(out@ =~= old(out)@ + json_chars(v@));
        },
        JsonValue::Num(n) => {
            push_dec_i64(out, *n);
        },
        JsonValue::Str(s) => {
            out.push('"');
            push_esc_str(out, s.as_str());
            out.push('"');
            assert(out@ =~= old(out)@ + json_chars(v@));
        },
        JsonValue::Arr(a) => {
            out.push('[');
            if a.len() > 0 {
                push_arr_body(out, a, 0);
            }
            out.push(']');
            proof {
                if a@.len() > 0 {
                    assert(views_of(a@).subrange(0, views_of(a@).len() as int) =~= views_of(a@));
                }
                assert(out@ =~= old(out)@ + json_chars(v@));
            }
        },
        JsonValue::Obj(o) => {
            out.push('{');
            if o.len() > 0 {
                push_obj_body(out, o, 0);
            }
            out.push('}');
            proof {
                if o@.len() > 0 {
                    assert(kv_views_of(o@).subrange(0, kv_views_of(o@).len() as int) =~= kv_views_of(
                        o@,
                    ));
                }
                assert(out@ =~= old(out)@ + json_chars(v@));
            }
        },
    }
}

/// Appends the renderings of the elements of `a` from position `i` on.
fn push_arr_body(out: &mut Vec<char>, a: &Vec<JsonValue>, i: usize)
    requires
        i < a@.len(),
    ensures
        final(out)@ == old(out)@ + arr_body_chars(views_of(a@).subrange(i as int, a@.len() as int)),
    decreases a@, a@.len() - i,
{
    push_json(out, &a[i]);
    let ghost tail = views_of(a@).subrange(i as int, a@.len() as int);
    let n = a.len();
    if i + 1 < n {
        out.push(',');
        push_arr_body(out, a, i + 1);
        proof {
            assert(tail.drop_first() =~= views_of(a@).subrange(i + 1 as int, a@.len() as int));
            assert(tail[0] == a@[i as int]@);
            assert(out@ =~= old(out)@ + arr_body_chars(tail));
        }
    } else {
        proof {
            assert(tail.len() == 1);
            assert(tail[0] == a@[i as int]@);
            assert(out@ =~= old(out)@ + arr_body_chars(tail));
        }
    }
}

/// Appends the renderings of the members of `o` from position `i` on.
fn push_obj_body(out: &mut Vec<char>, o: &Vec<(String, JsonValue)>, i: usize)
    requires
        i < o@.len(),
    ensures
        final(out)@ == old(out)@ + obj_body_chars(
            kv_views_of(o@).subrange(i as int, o@.len() as int),
        ),
    decreases o@, o@.len() - i,
{
    let ghost tail = kv_views_of(o@).subrange(i as int, o@.len() as int);
    out.push('"');
    push_esc_str(out, o[i].0.as_str());
    out.push('"');
    out.push(':');
    push_json(out, &o[i].1);
    let n = o.len();
    if i + 1 < n {
        out.push(',');
        push_obj_body(out, o, i + 1);
        proof {
            assert(tail.drop_first() =~= kv_views_of(o@).subrange(i + 1 as int, o@.len() as int));
            assert(tail[0] == (o@[i as int].0@, o@[i as int].1@));
            assert(out@ =~= old(out)@ + obj_body_chars(tail));
        }
    } else {
        proof {
            assert(tail.len() == 1);
            assert(tail[0] == (o@[i as int].0@, o@[i as int].1@));
            assert(out@ =~= old(out)@ + obj_body_chars(tail));
        }
    }
}

/// The compact rendering of `v`, as characters.
pub fn json_to_chars(v: &JsonValue) -> (r: Vec<char>)
    ensures
        r@ == json_chars(v@),
{
    let mut out: Vec<char> = Vec::new();
    push_json(&mut out, v);
    out
}

/// The compact rendering of `v`.
pub fn json_to_string(v: &JsonValue) -> (r: String)
    ensures
        r@ == json_chars(v@),
{
    crate::text::string_from_chars(json_to_chars(v))
}

/// JSON whitespace.
pub open spec fn is_ws_byte(b: u8) -> bool {
    b == 0x20 || b == 0x09 || b == 0x0a || b == 0x0d
}

/// An ASCII decimal digit.
pub open spec fn is_digit_byte(b: u8) -> bool {
    0x30 <= b <= 0x39
}

/// The first position at or after `i` that does not hold whitespace.
pub open spec fn skip_ws(s: Seq<u8>, i: int) -> int
    decreases s.len() - i,
{
    if 0 <= i < s.len() && is_ws_byte(s[i]) {
        skip_ws(s, i + 1)
    } else {
        i
    }
}

/// The value of one ASCII hex digit, or -1.
pub open spec fn hex_val(b: u8) -> int {
    if 0x30 <= b <= 0x39 {
        b - 0x30
    } else if 0x41 <= b <= 0x46 {
        b - 0x41 + 10
    } else if 0x61 <= b <= 0x66 {
        b - 0x61 + 10
    } else {
        -1
    }
}

/// The value of four hex digits starting at `i`, or -1.
pub open spec fn hex4_val(s: Seq<u8>, i: int) -> int {
    if 0 <= i && i + 4 <= s.len() && hex_val(s[i]) >= 0 && hex_val(s[i + 1]) >= 0 && hex_val(
        s[i + 2],
    ) >= 0 && hex_val(s[i + 3]) >= 0 {
        hex_val(s[i]) * 4096 + hex_val(s[i + 1]) * 256 + hex_val(s[i + 2]) * 16 + hex_val(s[i + 3])
    } else {
        -1
    }
}

/// One string escape, entered just after the backslash. Yields the escaped
/// character and the position after the escape. A `\uXXXX` high surrogate
/// must be followed by a low surrogate escape; the pair forms one character.
pub open spec fn parse_escape(s: Seq<u8>, i: int) -> Option<(char, int)> {
    if i < 0 || i >= s.len() {
        None
    } else {
        let b = s[i];
        if b == 0x22 {
            Some(('"', i + 1))
        } else if b == 0x5c {
            Some(('\\', i + 1))
        } else if b == 0x2f {
            Some(('/', i + 1))
        } else if b == 0x62 {
            Some(('\u{8}', i + 1))
        } else if b == 0x66 {
            Some(('\u{c}', i + 1))
        } else if b == 0x6e {
            Some(('\n', i + 1))
        } else if b == 0x72 {
            Some(('\r', i + 1))
        } else if b == 0x74 {
            Some(('\t', i + 1))
        } else if b == 0x75 {
            let v = hex4_val(s, i + 1);
            if v < 0 {
                None
            } else if v < 0xD800 || v > 0xDFFF {
                Some(((v as u32) as char, i + 5))
            } else if v < 0xDC00 {
                if i + 11 <= s.len() && s[i + 5] == 0x5c && s[i + 6] == 0x75 {
                    let lo = hex4_val(s, i + 7);
                    if 0xDC00 <= lo <= 0xDFFF {
                        let scalar = 0x10000 + (v - 0xD800) * 1024 + (lo - 0xDC00);
                        Some(((scalar as u32) as char, i + 11))
                    } else {
                        None
                    }
                } else {
                    None
                }
            } else {
                None
            }
        } else {
            None
        }
    }
}

/// The body of a string literal, entered just after the opening quote.
/// Yields the characters and the position after the closing quote. Source
/// bytes must be printable ASCII; other characters arrive through escapes.
pub open spec fn parse_str_body(s: Seq<u8>, i: int) -> Option<(Seq<char>, int)>
    decreases s.len() - i,
{
    if i < 0 || i >= s.len() {
        None
    } else if s[i] == 0x22 {
        Some((Seq::empty(), i + 1))
    } else if s[i] == 0x5c {
        match parse_escape(s, i + 1) {
            Some((c, j)) => if i < j <= s.len() {
                match parse_str_body(s, j) {
                    Some((rest, k)) => Some((seq![c] + rest, k)),
                    None => None,
                }
            } else {
                None
            },
            None => None,
        }
    } else if 0x20 <= s[i] < 0x80 {
        match parse_str_body(s, i + 1) {
            Some((rest, k)) => Some((seq![s[i] as char] + rest, k)),
            None => None,
        }
    } else {
        None
    }
}

/// The first position at or after `i` that does not hold a digit.
pub open spec fn digits_end(s: Seq<u8>, i: int) -> int
    decreases s.len() - i,
{
    if 0 <= i < s.len() && is_digit_byte(s[i]) {
        digits_end(s, i + 1)
    } else {
        i
    }
}

/// The value of the decimal digits `s[i .. j]`.
pub open spec fn dec_val(s: Seq<u8>, i: int, j: int) -> int
    decreases j - i,
{
    if i >= j {
        0
    } else {
        dec_val(s, i, j - 1) * 10 + (s[j - 1] - 0x30)
    }
}

/// A number at `i`: an optional minus sign and decimal digits, with no
/// leading zero. Fractions and exponents are outside this library's grammar,
/// as is any value outside `i64`.
pub open spec fn parse_number(s: Seq<u8>, i: int) -> Option<(int, int)> {
    let neg = 0 <= i < s.len() && s[i] == 0x2d;
    let start = if neg {
        i + 1
    } else {
        i
    };
    let j = digits_end(s, start);
    if j == start {
        None
    } else if s[start] == 0x30 && j > start + 1 {
        None
    } else if j < s.len() && (s[j] == 0x2e || s[j] == 0x65 || s[j] == 0x45) {
        None
    } else {
        let m = dec_val(s, start, j);
        let n = if neg {
            -m
        } else {
            m
        };
        if n < -0x8000000000000000 || n > 0x7fffffffffffffff {
            None
        } else {
            Some((n, j))
        }
    }
}

/// A JSON value at `i`, leading whitespace allowed. `fuel` bounds the
/// recursion; [`json_parse`] supplies enough for any input of its length.
pub open spec fn parse_value(s: Seq<u8>, i: int, fuel: nat) -> Option<(Json, int)>
    decreases fuel,
{
    if fuel == 0 {
        None
    } else {
        let i2 = skip_ws(s, i);
        if i2 >= s.len() {
            None
        } else {
            let b = s[i2];
            if b == 0x6e {  // 'n'
                if i2 + 4 <= s.len() && s[i2 + 1] == 0x75 && s[i2 + 2] == 0x6c && s[i2 + 3]
                    == 0x6c {
                    Some((Json::Null, i2 + 4))
                } else {
                    None
                }
            } else if b == 0x74 {  // 't'
                if i2 + 4 <= s.len() && s[i2 + 1] == 0x72 && s[i2 + 2] == 0x75 && s[i2 + 3]
                    == 0x65 {
                    Some((Json::Bool(true), i2 + 4))
                } else {
                    None
                }
            } else if b == 0x66 {  // 'f'
                if i2 + 5 <= s.len() && s[i2 + 1] == 0x61 && s[i2 + 2] == 0x6c && s[i2 + 3] == 0x73
                    && s[i2 + 4] == 0x65 {
                    Some((Json::Bool(false), i2 + 5))
                } else {
                    None
                }
            } else if b == 0x22 {  // '"'
                match parse_str_body(s, i2 + 1) {
                    Some((cs, j)) => Some((Json::Str(cs), j)),
                    None => None,
                }
            } else if b == 0x2d || is_digit_byte(b) {
                match parse_number(s, i2) {
                    Some((n, j)) => Some((Json::Num(n), j)),
                    None => None,
                }
            } else if b == 0x5b {  // '['
                let j = skip_ws(s, i2 + 1);
                if j < s.len() && s[j] == 0x5d {
                    Some((Json::Arr(Seq::empty()), j + 1))
                } else {
                    match parse_elements(s, i2 + 1, (fuel - 1) as nat) {
                        Some((elems, k)) => Some((Json::Arr(elems), k)),
                        None => None,
                    }
                }
            } else if b == 0x7b {  // '{'
                let j = skip_ws(s, i2 + 1);
                if j < s.len() && s[j] == 0x7d {
                    Some((Json::Obj(Seq::empty()), j + 1))
                } else {
                    match parse_members(s, i2 + 1, (fuel - 1) as nat) {
                        Some((mems, k)) => Some((Json::Obj(mems), k)),
                        None => None,
                    }
                }
            } else {
                None
            }
        }
    }
}

/// One or more comma-separated values, then the closing bracket.
pub open spec fn parse_elements(s: Seq<u8>, i: int, fuel: nat) -> Option<(Seq<Json>, int)>
    decreases fuel,
{
    if fuel == 0 {
        None
    } else {
        match parse_value(s, i, (fuel - 1) as nat) {
            Some((v, j)) => {
                let k = skip_ws(s, j);
                if k < s.len() && s[k] == 0x2c {
                    match parse_elements(s, k + 1, (fuel - 1) as nat) {
                        Some((rest, m)) => Some((seq![v] + rest, m)),
                        None => None,
                    }
                } else if k < s.len() && s[k] == 0x5d {
                    Some((seq![v], k + 1))
                } else {
                    None
                }
            },
            None => None,
        }
    }
}

/// One or more comma-separated `"key":value` members, then the closing brace.
pub open spec fn parse_members(s: Seq<u8>, i: int, fuel: nat) -> Option<
    (Seq<(Seq<char>, Json)>, int),
>
    decreases fuel,
{
    if fuel == 0 {
        None
    } else {
        let i2 = skip_ws(s, i);
        if i2 < s.len() && s[i2] == 0x22 {
            match parse_str_body(s, i2 + 1) {
                Some((key, j)) => {
                    let j2 = skip_ws(s, j);
                    if j2 < s.len() && s[j2] == 0x3a {
                        match parse_value(s, j2 + 1, (fuel - 1) as nat) {
                            Some((v, k)) => {
                                let k2 = skip_ws(s, k);
                                if k2 < s.len() && s[k2] == 0x2c {
                                    match parse_members(s, k2 + 1, (fuel - 1) as nat) {
                                        Some((rest, m)) => Some((seq![(key, v)] + rest, m)),
                                        None => None,
                                    }
                                } else if k2 < s.len() && s[k2] == 0x7d {
                                    Some((seq![(key, v)], k2 + 1))
                                } else {
                                    None
                                }
                            },
                            None => None,
                        }
                    } else {
                        None
                    }
                },
                None => None,
            }
        } else {
            None
        }
    }
}

/// The JSON document encoded by `s`: a single value, with whitespace allowed
/// around it, spanning all of `s`.
pub open spec fn json_parse(s: Seq<u8>) -> Option<Json> {
    match parse_value(s, 0, (2 * s.len() + 2) as nat) {
        Some((v, i)) => if skip_ws(s, i) == s.len() {
            Some(v)
        } else {
            None
        },
        None => None,
    }
}

/// Advances past whitespace.
pub fn skip_ws_exec(s: &[u8], i: usize) -> (r: usize)
    requires
        i <= s@.len(),
    ensures
        r as int == skip_ws(s@, i as int),
        i <= r <= s@.len(),
{
    let mut j = i;
    while j < s.len() && (s[j] == 0x20 || s[j] == 0x09 || s[j] == 0x0a || s[j] == 0x0d)
        invariant
            i <= j <= s@.len(),
            skip_ws(s@, i as int) == skip_ws(s@, j as int),
        decreases s@.len() - j,
    {
        j += 1;
    }
    j
}

/// The value of one hex digit, if `b` is one.
fn hex_val_exec(b: u8) -> (r: Option<u8>)
    ensures
        match r {
            Some(v) => hex_val(b) == v as int && v < 16,
            None => hex_val(b) < 0,
        },
{
    if 0x30 <= b && b <= 0x39 {
        Some(b - 0x30)
    } else if 0x41 <= b && b <= 0x46 {
        Some(b - 0x41 + 10)
    } else if 0x61 <= b && b <= 0x66 {
        Some(b - 0x61 + 10)
    } else {
        None
    }
}

/// The value of four hex digits starting at `i`, if present.
fn hex4_exec(s: &[u8], i: usize) -> (r: Option<u32>)
    requires
        i <= s@.len(),
    ensures
        match r {
            Some(v) => hex4_val(s@, i as int) == v as int && v < 0x10000,
            None => hex4_val(s@, i as int) < 0,
        },
{
    if s.len() - i < 4 {
        return None;
    }
    let d0 = match hex_val_exec(s[i]) {
        Some(v) => v,
        None => {
            return None;
        },
    };
    let d1 = match hex_val_exec(s[i + 1]) {
        Some(v) => v,
        None => {
            return None;
        },
    };
    let d2 = match hex_val_exec(s[i + 2]) {
        Some(v) => v,
        None => {
            return None;
        },
    };
    let d3 = match hex_val_exec(s[i + 3]) {
        Some(v) => v,
        None => {
            return None;
        },
    };
    Some((d0 as u32) * 4096 + (d1 as u32) * 256 + (d2 as u32) * 16 + (d3 as u32))
}

/// Relies on `char::from_u32`: `Some` exactly on Unicode scalar values
/// (not a surrogate, at most `0x10FFFF`), and the character keeps the code.
#[verifier::external_body]
fn char_from_u32(u: u32) -> (r: Option<char>)
    ensures
        (u < 0xD800 || (0xE000 <= u && u <= 0x10FFFF)) <==> r is Some,
        match r {
            Some(c) => c as u32 == u,
            None => true,
        },
{
    char::from_u32(u)
}

/// One string escape, entered just after the backslash.
fn parse_escape_exec(s: &[u8], i: usize) -> (r: Option<(char, usize)>)
    requires
        i <= s@.len(),
    ensures
        match r {
            Some((c, j)) => parse_escape(s@, i as int) == Some((c, j as int)) && i < j <= s@.len(),
            None => parse_escape(s@, i as int) is None,
        },
{
    if i >= s.len() {
        return None;
    }
    let b = s[i];
    if b == 0x22 {
        Some(('"', i + 1))
    } else if b == 0x5c {
        Some(('\\', i + 1))
    } else if b == 0x2f {
        Some(('/', i + 1))
    } else if b == 0x62 {
        Some(('\u{8}', i + 1))
    } else if b == 0x66 {
        Some(('\u{c}', i + 1))
    } else if b == 0x6e {
        Some(('\n', i + 1))
    } else if b == 0x72 {
        Some(('\r', i + 1))
    } else if b == 0x74 {
        Some(('\t', i + 1))
    } else if b == 0x75 {
        let v = match hex4_exec(s, i + 1) {
            Some(v) => v,
            None => {
                return None;
            },
        };
        if v < 0xD800 || v > 0xDFFF {
            let c = match char_from_u32(v) {
                Some(c) => c,
                None => {
                    return None;
                },
            };
            proof {
                vstd::utf8::char_u32_cast(c, v);
            }
            Some((c, i + 5))
        } else if v < 0xDC00 {
            if s.len() - i >= 11 && s[i + 5] == 0x5c && s[i + 6] == 0x75 {
                let lo = match hex4_exec(s, i + 7) {
                    Some(lo) => lo,
                    None => {
                        return None;
                    },
                };
                if 0xDC00 <= lo && lo <= 0xDFFF {
                    let scalar = 0x10000 + (v - 0xD800) * 1024 + (lo - 0xDC00);
                    let c = match char_from_u32(scalar) {
                        Some(c) => c,
                        None => {
                            return None;
                        },
                    };
                    proof {
                        vstd::utf8::char_u32_cast(c, scalar);
                    }
                    Some((c, i + 11))
                } else {
                    None
                }
            } else {
                None
            }
        } else {
            None
        }
    } else {
        None
    }
}

/// The body of a string literal, entered just after the opening quote.
fn parse_str_body_exec(s: &[u8], i: usize) -> (r: Option<(Vec<char>, usize)>)
    requires
        i <= s@.len(),
    ensures
        match r {
            Some((cs, j)) => parse_str_body(s@, i as int) == Some((cs@, j as int)) && i < j
                <= s@.len(),
            None => parse_str_body(s@, i as int) is None,
        },
    decreases s@.len() - i,
{
    if i >= s.len() {
        return None;
    }
    let b = s[i];
    if b == 0x22 {
        let cs: Vec<char> = Vec::new();
        assert(cs@ =~= Seq::<char>::empty());
        Some((cs, i + 1))
    } else if b == 0x5c {
        match parse_escape_exec(s, i + 1) {
            Some((c, j)) => match parse_str_body_exec(s, j) {
                Some((rest, k)) => {
                    let mut cs = rest;
                    cs.insert(0, c);
                    proof {
                        assert(cs@ =~= seq![c] + cs@.subrange(1, cs@.len() as int));
                    }
                    Some((cs, k))
                },
                None => None,
            },
            None => None,
        }
    } else if 0x20 <= b && b < 0x80 {
        match parse_str_body_exec(s, i + 1) {
            Some((rest, k)) => {
                let c = b as char;
                let mut cs = rest;
                cs.insert(0, c);
                proof {
                    assert(cs@ =~= seq![c] + cs@.subrange(1, cs@.len() as int));
                }
                Some((cs, k))
            },
            None => None,
        }
    } else {
        None
    }
}

/// A number at `i`.
fn parse_number_exec(s: &[u8], i: usize) -> (r: Option<(i64, usize)>)
    requires
        i <= s@.len(),
    ensures
        match r {
            Some((n, j)) => parse_number(s@, i as int) == Some((n as int, j as int)) && i < j
                <= s@.len(),
            None => parse_number(s@, i as int) is None,
        },
{
    let neg = i < s.len() && s[i] == 0x2d;
    let start = if neg {
        i + 1
    } else {
        i
    };
    let mut j = start;
    let mut acc: u128 = 0;
    let mut over = false;
    while j < s.len() && 0x30 <= s[j] && s[j] <= 0x39
        invariant
            start <= j <= s@.len(),
            start <= s@.len(),
            digits_end(s@, start as int) == digits_end(s@, j as int),
            !over ==> acc == dec_val(s@, start as int, j as int) && acc <= 0x8000000000000000,
            over ==> dec_val(s@, start as int, j as int) > 0x8000000000000000,
        decreases s@.len() - j,
    {
        let d = (s[j] - 0x30) as u128;
        if !over {
            acc = acc * 10 + d;
            if acc > 0x8000000000000000 {
                over = true;
            }
        }
        j += 1;
    }
    if j == start {
        return None;
    }
    if s[start] == 0x30 && j > start + 1 {
        return None;
    }
    if j < s.len() && (s[j] == 0x2e || s[j] == 0x65 || s[j] == 0x45) {
        return None;
    }
    if over {
        return None;
    }
    if neg {
        if acc == 0x8000000000000000 {
            Some((i64::MIN, j))
        } else {
            Some((-(acc as i64), j))
        }
    } else {
        if acc > 0x7fffffffffffffff {
            return None;
        }
        Some((acc as i64, j))
    }
}

/// A JSON value at `i`, leading whitespace allowed.
pub fn parse_value_exec(s: &[u8], i: usize) -> (r: Option<(JsonValue, usize)>)
    requires
        i <= s@.len(),
    ensures
        match r {
            Some((v, j)) => i < j <= s@.len() && (forall|f: nat|
                f >= 2 * (s@.len() - i) + 2 ==> parse_value(s@, i as int, f) == Some(
                    (v@, j as int),
                )),
            None => forall|f: nat|
                f >= 2 * (s@.len() - i) + 2 ==> parse_value(s@, i as int, f) is None,
        },
    decreases s@.len() - i, 0int,
{
    let ghost bound: nat = (2 * (s@.len() - i) + 2) as nat;
    let i2 = skip_ws_exec(s, i);
    if i2 >= s.len() {
        proof {
            assert forall|f: nat| f >= bound implies parse_value(s@, i as int, f) is None by {}
        }
        return None;
    }
    let b = s[i2];
    if b == 0x6e {
        if s.len() - i2 >= 4 && s[i2 + 1] == 0x75 && s[i2 + 2] == 0x6c && s[i2 + 3] == 0x6c {
            let r = Some((JsonValue::Null, i2 + 4));
            proof {
                assert forall|f: nat| f >= bound implies parse_value(s@, i as int, f) == Some(
                    (Json::Null, i2 + 4 as int),
                ) by {}
            }
            r
        } else {
            proof {
                assert forall|f: nat| f >= bound implies parse_value(s@, i as int, f) is None by {}
            }
            None
        }
    } else if b == 0x74 {
        if s.len() - i2 >= 4 && s[i2 + 1] == 0x72 && s[i2 + 2] == 0x75 && s[i2 + 3] == 0x65 {
            let r = Some((JsonValue::Bool(true), i2 + 4));
            proof {
                assert forall|f: nat| f >= bound implies parse_value(s@, i as int, f) == Some(
                    (Json::Bool(true), i2 + 4 as int),
                ) by {}
            }
            r
        } else {
            proof {
                assert forall|f: nat| f >= bound implies parse_value(s@, i as int, f) is None by {}
            }
            None
        }
    } else if b == 0x66 {
        if s.len() - i2 >= 5 && s[i2 + 1] == 0x61 && s[i2 + 2] == 0x6c && s[i2 + 3] == 0x73 && s[i2
            + 4] == 0x65 {
            let r = Some((JsonValue::Bool(false), i2 + 5));
            proof {
                assert forall|f: nat| f >= bound implies parse_value(s@, i as int, f) == Some(
                    (Json::Bool(false), i2 + 5 as int),
                ) by {}
            }
            r
        } else {
            proof {
                assert forall|f: nat| f >= bound implies parse_value(s@, i as int, f) is None by {}
            }
            None
        }
    } else if b == 0x22 {
        match parse_str_body_exec(s, i2 + 1) {
            Some((cs, j)) => {
                let st = crate::text::string_from_chars(cs);
                let r = Some((JsonValue::Str(st), j));
                proof {
                    assert forall|f: nat| f >= bound implies parse_value(s@, i as int, f) == Some(
                        (Json::Str(st@), j as int),
                    ) by {}
                }
                r
            },
            None => {
                proof {
                    assert forall|f: nat| f >= bound implies parse_value(s@, i as int, f) is None
                        by {}
                }
                None
            },
        }
    } else if b == 0x2d || (0x30 <= b && b <= 0x39) {
        match parse_number_exec(s, i2) {
            Some((n, j)) => {
                let r = Some((JsonValue::Num(n), j));
                proof {
                    assert forall|f: nat| f >= bound implies parse_value(s@, i as int, f) == Some(
                        (Json::Num(n as int), j as int),
                    ) by {}
                }
                r
            },
            None => {
                proof {
                    assert forall|f: nat| f >= bound implies parse_value(s@, i as int, f) is None
                        by {}
                }
                None
            },
        }
    } else if b == 0x5b {
        let j = skip_ws_exec(s, i2 + 1);
        if j < s.len() && s[j] == 0x5d {
            let es: Vec<JsonValue> = Vec::new();
            proof {
                assert(views_of(es@) =~= Seq::<Json>::empty());
                assert forall|f: nat| f >= bound implies parse_value(s@, i as int, f) == Some(
                    (Json::Arr(Seq::empty()), j + 1 as int),
                ) by {}
            }
            Some((JsonValue::Arr(es), j + 1))
        } else {
            match parse_elements_exec(s, i2 + 1) {
                Some((es, k)) => {
                    let r = Some((JsonValue::Arr(es), k));
                    proof {
                        assert forall|f: nat| f >= bound implies parse_value(s@, i as int, f)
                            == Some((Json::Arr(views_of(es@)), k as int)) by {
                            assert(parse_elements(s@, i2 + 1 as int, (f - 1) as nat) == Some(
                                (views_of(es@), k as int),
                            ));
                        }
                    }
                    r
                },
                None => {
                    proof {
                        assert forall|f: nat| f >= bound implies parse_value(s@, i as int, f)
                            is None by {
                            assert(parse_elements(s@, i2 + 1 as int, (f - 1) as nat) is None);
                        }
                    }
                    None
                },
            }
        }
    } else if b == 0x7b {
        let j = skip_ws_exec(s, i2 + 1);
        if j < s.len() && s[j] == 0x7d {
            let ms: Vec<(String, JsonValue)> = Vec::new();
            proof {
                assert(kv_views_of(ms@) =~= Seq::<(Seq<char>, Json)>::empty());
                assert forall|f: nat| f >= bound implies parse_value(s@, i as int, f) == Some(
                    (Json::Obj(Seq::empty()), j + 1 as int),
                ) by {}
            }
            Some((JsonValue::Obj(ms), j + 1))
        } else {
            match parse_members_exec(s, i2 + 1) {
                Some((ms, k)) => {
                    let r = Some((JsonValue::Obj(ms), k));
                    proof {
                        assert forall|f: nat| f >= bound implies parse_value(s@, i as int, f)
                            == Some((Json::Obj(kv_views_of(ms@)), k as int)) by {
                            assert(parse_members(s@, i2 + 1 as int, (f - 1) as nat) == Some(
                                (kv_views_of(ms@), k as int),
                            ));
                        }
                    }
                    r
                },
                None => {
                    proof {
                        assert forall|f: nat| f >= bound implies parse_value(s@, i as int, f)
                            is None by {
                            assert(parse_members(s@, i2 + 1 as int, (f - 1) as nat) is None);
                        }
                    }
                    None
                },
            }
        }
    } else {
        proof {
            assert forall|f: nat| f >= bound implies parse_value(s@, i as int, f) is None by {}
        }
        None
    }
}

/// One or more comma-separated values, then the closing bracket.
fn parse_elements_exec(s: &[u8], i: usize) -> (r: Option<(Vec<JsonValue>, usize)>)
    requires
        i <= s@.len(),
    ensures
        match r {
            Some((es, j)) => i < j <= s@.len() && (forall|f: nat|
                f >= 2 * (s@.len() - i) + 3 ==> parse_elements(s@, i as int, f) == Some(
                    (views_of(es@), j as int),
                )),
            None => forall|f: nat|
                f >= 2 * (s@.len() - i) + 3 ==> parse_elements(s@, i as int, f) is None,
        },
    decreases s@.len() - i, 1int,
{
    let ghost bound: nat = (2 * (s@.len() - i) + 3) as nat;
    match parse_value_exec(s, i) {
        Some((v, j)) => {
            let k = skip_ws_exec(s, j);
            if k < s.len() && s[k] == 0x2c {
                match parse_elements_exec(s, k + 1) {
                    Some((rest, m)) => {
                        let ghost rest0 = rest@;
                        let mut es = rest;
                        es.insert(0, v);
                        proof {
                            assert(es@ =~= seq![v] + rest0);
                            assert(views_of(es@) =~= seq![v@] + views_of(rest0));
                            assert forall|f: nat| f >= bound implies parse_elements(
                                s@,
                                i as int,
                                f,
                            ) == Some((views_of(es@), m as int)) by {
                                assert(parse_value(s@, i as int, (f - 1) as nat) == Some(
                                    (v@, j as int),
                                ));
                                assert(parse_elements(s@, k + 1 as int, (f - 1) as nat) == Some(
                                    (views_of(rest0), m as int),
                                ));
                            }
                        }
                        Some((es, m))
                    },
                    None => {
                        proof {
                            assert forall|f: nat| f >= bound implies parse_elements(
                                s@,
                                i as int,
                                f,
                            ) is None by {
                                assert(parse_value(s@, i as int, (f - 1) as nat) == Some(
                                    (v@, j as int),
                                ));
                                assert(parse_elements(s@, k + 1 as int, (f - 1) as nat) is None);
                            }
                        }
                        None
                    },
                }
            } else if k < s.len() && s[k] == 0x5d {
                let mut es: Vec<JsonValue> = Vec::new();
                es.push(v);
                proof {
                    assert(views_of(es@) =~= seq![v@]);
                    assert forall|f: nat| f >= bound implies parse_elements(s@, i as int, f)
                        == Some((views_of(es@), k + 1 as int)) by {
                        assert(parse_value(s@, i as int, (f - 1) as nat) == Some((v@, j as int)));
                    }
                }
                Some((es, k + 1))
            } else {
                proof {
                    assert forall|f: nat| f >= bound implies parse_elements(s@, i as int, f)
                        is None by {
                        assert(parse_value(s@, i as int, (f - 1) as nat) == Some((v@, j as int)));
                    }
                }
                None
            }
        },
        None => {
            proof {
                assert forall|f: nat| f >= bound implies parse_elements(s@, i as int, f) is None
                    by {
                    assert(parse_value(s@, i as int, (f - 1) as nat) is None);
                }
            }
            None
        },
    }
}

/// One or more comma-separated members, then the closing brace.
fn parse_members_exec(s: &[u8], i: usize) -> (r: Option<(Vec<(String, JsonValue)>, usize)>)
    requires
        i <= s@.len(),
    ensures
        match r {
            Some((ms, j)) => i < j <= s@.len() && (forall|f: nat|
                f >= 2 * (s@.len() - i) + 3 ==> parse_members(s@, i as int, f) == Some(
                    (kv_views_of(ms@), j as int),
                )),
            None => forall|f: nat|
                f >= 2 * (s@.len() - i) + 3 ==> parse_members(s@, i as int, f) is None,
        },
    decreases s@.len() - i, 1int,
{
    let ghost bound: nat = (2 * (s@.len() - i) + 3) as nat;
    let i2 = skip_ws_exec(s, i);
    if i2 < s.len() && s[i2] == 0x22 {
        match parse_str_body_exec(s, i2 + 1) {
            Some((kcs, j)) => {
                let key = crate::text::string_from_chars(kcs);
                let j2 = skip_ws_exec(s, j);
                if j2 < s.len() && s[j2] == 0x3a {
                    match parse_value_exec(s, j2 + 1) {
                        Some((v, k)) => {
                            let k2 = skip_ws_exec(s, k);
                            if k2 < s.len() && s[k2] == 0x2c {
                                match parse_members_exec(s, k2 + 1) {
                                    Some((rest, m)) => {
                                        let ghost rest0 = rest@;
                                        let mut ms = rest;
                                        ms.insert(0, (key, v));
                                        proof {
                                            assert(ms@ =~= seq![(key, v)] + rest0);
                                            assert(kv_views_of(ms@) =~= seq![(key@, v@)]
                                                + kv_views_of(rest0));
                                            assert forall|f: nat| f >= bound implies parse_members(
                                                s@,
                                                i as int,
                                                f,
                                            ) == Some((kv_views_of(ms@), m as int)) by {
                                                assert(parse_value(s@, j2 + 1 as int, (f - 1) as nat)
                                                    == Some((v@, k as int)));
                                                assert(parse_members(s@, k2 + 1 as int, (f - 1) as nat)
                                                    == Some((kv_views_of(rest0), m as int)));
                                            }
                                        }
                                        Some((ms, m))
                                    },
                                    None => {
                                        proof {
                                            assert forall|f: nat| f >= bound implies parse_members(
                                                s@,
                                                i as int,
                                                f,
                                            ) is None by {
                                                assert(parse_value(s@, j2 + 1 as int, (f - 1) as nat)
                                                    == Some((v@, k as int)));
                                                assert(parse_members(s@, k2 + 1 as int, (f - 1) as nat)
                                                    is None);
                                            }
                                        }
                                        None
                                    },
                                }
                            } else if k2 < s.len() && s[k2] == 0x7d {
                                let mut ms: Vec<(String, JsonValue)> = Vec::new();
                                ms.push((key, v));
                                proof {
                                    assert(kv_views_of(ms@) =~= seq![(key@, v@)]);
                                    assert forall|f: nat| f >= bound implies parse_members(
                                        s@,
                                        i as int,
                                        f,
                                    ) == Some((kv_views_of(ms@), k2 + 1 as int)) by {
                                        assert(parse_value(s@, j2 + 1 as int, (f - 1) as nat)
                                            == Some((v@, k as int)));
                                    }
                                }
                                Some((ms, k2 + 1))
                            } else {
                                proof {
                                    assert forall|f: nat| f >= bound implies parse_members(
                                        s@,
                                        i as int,
                                        f,
                                    ) is None by {
                                        assert(parse_value(s@, j2 + 1 as int, (f - 1) as nat)
                                            == Some((v@, k as int)));
                                    }
                                }
                                None
                            }
                        },
                        None => {
                            proof {
                                assert forall|f: nat| f >= bound implies parse_members(
                                    s@,
                                    i as int,
                                    f,
                                ) is None by {
                                    assert(parse_value(s@, j2 + 1 as int, (f - 1) as nat) is None);
                                }
                            }
                            None
                        },
                    }
                } else {
                    proof {
                        assert forall|f: nat| f >= bound implies parse_members(s@, i as int, f)
                            is None by {}
                    }
                    None
                }
            },
            None => {
                proof {
                    assert forall|f: nat| f >= bound implies parse_members(s@, i as int, f)
                        is None by {}
                }
                None
            },
        }
    } else {
        proof {
            assert forall|f: nat| f >= bound implies parse_members(s@, i as int, f) is None by {}
        }
        None
    }
}

/// Parses `s` as one JSON document.
pub fn json_from_bytes(s: &[u8]) -> (r: Option<JsonValue>)
    ensures
        match r {
            Some(v) => json_parse(s@) == Some(v@),
            None => json_parse(s@) is None,
        },
{
    match parse_value_exec(s, 0) {
        Some((v, i)) => {
            let k = skip_ws_exec(s, i);
            if k == s.len() {
                Some(v)
            } else {
                None
            }
        },
        None => None,
    }
}

} // verus!
