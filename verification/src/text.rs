//! Character-level building blocks: decimal and hexadecimal rendering of
//! integers, and conversions between `&str`/`String` and `Vec<char>`.
use vstd::prelude::*;

verus! {

/// The character for one decimal or hexadecimal digit value.
pub open spec fn digit_char(d: nat) -> char {
    if d == 0 {
        '0'
    } else if d == 1 {
        '1'
    } else if d == 2 {
        '2'
    } else if d == 3 {
        '3'
    } else if d == 4 {
        '4'
    } else if d == 5 {
        '5'
    } else if d == 6 {
        '6'
    } else if d == 7 {
        '7'
    } else if d == 8 {
        '8'
    } else if d == 9 {
        '9'
    } else if d == 10 {
        'a'
    } else if d == 11 {
        'b'
    } else if d == 12 {
        'c'
    } else if d == 13 {
        'd'
    } else if d == 14 {
        'e'
    } else {
        'f'
    }
}

/// The decimal rendering of a natural number, most significant digit first,
/// with no leading zeros (a single `'0'` for zero).
pub open spec fn dec_chars(n: nat) -> Seq<char>
    decreases n,
{
    if n < 10 {
        seq![digit_char(n)]
    } else {
        dec_chars(n / 10).push(digit_char(n % 10))
    }
}

/// The decimal rendering of a possibly negative integer: a leading `'-'`
/// for negative values, then the digits of the magnitude.
pub open spec fn dec_chars_int(n: int) -> Seq<char> {
    if n < 0 {
        seq!['-'] + dec_chars((-n) as nat)
    } else {
        dec_chars(n as nat)
    }
}

pub fn digit_char_exec(d: u64) -> (c: char)
    requires
        d < 16,
    ensures
        c == digit_char(d as nat),
{
    if d == 0 {
        '0'
    } else if d == 1 {
        '1'
    } else if d == 2 {
        '2'
    } else if d == 3 {
        '3'
    } else if d == 4 {
        '4'
    } else if d == 5 {
        '5'
    } else if d == 6 {
        '6'
    } else if d == 7 {
        '7'
    } else if d == 8 {
        '8'
    } else if d == 9 {
        '9'
    } else if d == 10 {
        'a'
    } else if d == 11 {
        'b'
    } else if d == 12 {
        'c'
    } else if d == 13 {
        'd'
    } else if d == 14 {
        'e'
    } else {
        'f'
    }
}

/// Renders `n` in decimal, appending to `out`.
pub fn push_dec_u64(out: &mut Vec<char>, n: u64)
    ensures
        final(out)@ == old(out)@ + dec_chars(n as nat),
    decreases n,
{
    if n < 10 {
        out.push(digit_char_exec(n));
        assert(out@ =~= old(out)@ + dec_chars(n as nat));
    } else {
        push_dec_u64(out, n / 10);
        out.push(digit_char_exec(n % 10));
        assert(out@ =~= old(out)@ + dec_chars(n as nat));
    }
}

/// Renders a signed value in decimal, appending to `out`.
pub fn push_dec_i64(out: &mut Vec<char>, n: i64)
    ensures
        final(out)@ == old(out)@ + dec_chars_int(n as int),
{
    if n < 0 {
        out.push('-');
        let mag: u64 = if n == i64::MIN {
            9223372036854775808u64
        } else {
            (-n) as u64
        };
        assert(mag as nat == (-(n as int)) as nat);
        push_dec_u64(out, mag);
        assert(out@ =~= old(out)@ + dec_chars_int(n as int));
    } else {
        push_dec_u64(out, n as u64);
    }
}

/// The lowercase hexadecimal rendering of a byte sequence, two digits per
/// byte, high nibble first.
pub open spec fn hex_chars(bytes: Seq<u8>) -> Seq<char>
    decreases bytes.len(),
{
    if bytes.len() == 0 {
        Seq::empty()
    } else {
        hex_chars(bytes.drop_last()) + seq![
            digit_char((bytes.last() / 16) as nat),
            digit_char((bytes.last() % 16) as nat),
        ]
    }
}

/// Lowercase hex encoding of `bytes`.
pub fn hex_of_bytes(bytes: &[u8]) -> (r: Vec<char>)
    ensures
        r@ == hex_chars(bytes@),
{
    let mut out: Vec<char> = Vec::new();
    let mut i: usize = 0;
    while i < bytes.len()
        invariant
            i <= bytes@.len(),
            out@ == hex_chars(bytes@.subrange(0, i as int)),
        decreases bytes@.len() - i,
    {
        let b = bytes[i];
        out.push(digit_char_exec((b / 16) as u64));
        out.push(digit_char_exec((b % 16) as u64));
        proof {
            let pre = bytes@.subrange(0, i as int);
            let cur = bytes@.subrange(0, i + 1 as int);
            assert(cur.drop_last() =~= pre);
            assert(out@ =~= hex_chars(cur));
        }
        i += 1;
    }
    proof {
        assert(bytes@.subrange(0, bytes@.len() as int) =~= bytes@);
    }
    out
}

/// Appends the characters of `s` to `out`.
pub fn push_str_chars(out: &mut Vec<char>, s: &str)
    ensures
        final(out)@ == old(out)@ + s@,
{
    let n = s.unicode_len();
    let mut i: usize = 0;
    while i < n
        invariant
            i <= n,
            n == s@.len(),
            out@ == old(out)@ + s@.subrange(0, i as int),
        decreases n - i,
    {
        out.push(s.get_char(i));
        proof {
            assert(out@ =~= old(out)@ + s@.subrange(0, i + 1 as int));
        }
        i += 1;
    }
    proof {
        assert(s@.subrange(0, s@.len() as int) =~= s@);
    }
}

/// Relies on `String: FromIterator<char>`: collecting characters yields the
/// string of exactly those characters, in order.
#[verifier::external_body]
pub(crate) fn string_from_chars(v: Vec<char>) -> (r: String)
    ensures
        r@ == v@,
{
    v.into_iter().collect()
}

/// Decimal renderings are non-empty, never begin with a minus sign, and
/// have one character exactly for values below ten.
pub proof fn lemma_dec_chars_shape(n: nat)
    ensures
        dec_chars(n).len() >= 1,
        dec_chars(n)[0] != '-',
        (dec_chars(n).len() == 1) == (n < 10),
    decreases n,
{
    if n >= 10 {
        lemma_dec_chars_shape(n / 10);
    }
}

/// The decimal rendering of a natural number determines the number.
pub proof fn lemma_dec_chars_injective(n1: nat, n2: nat)
    requires
        dec_chars(n1) == dec_chars(n2),
    ensures
        n1 == n2,
    decreases n1,
{
    lemma_dec_chars_shape(n1);
    lemma_dec_chars_shape(n2);
    if n1 < 10 && n2 < 10 {
        assert(dec_chars(n1)[0] == dec_chars(n2)[0]);
        assert(n1 == n2);
    } else if n1 >= 10 && n2 >= 10 {
        let s1 = dec_chars(n1);
        let s2 = dec_chars(n2);
        assert(s1.last() == digit_char((n1 % 10) as nat));
        assert(s2.last() == digit_char((n2 % 10) as nat));
        assert(n1 % 10 == n2 % 10);
        assert(dec_chars(n1 / 10) =~= s1.drop_last());
        assert(dec_chars(n2 / 10) =~= s2.drop_last());
        lemma_dec_chars_injective(n1 / 10, n2 / 10);
    } else {
        assert(false);
    }
}

/// The decimal rendering of an integer determines the integer: the sign is
/// visible in the first character.
pub proof fn lemma_dec_chars_int_injective(n1: int, n2: int)
    requires
        dec_chars_int(n1) == dec_chars_int(n2),
    ensures
        n1 == n2,
{
    if n1 < 0 && n2 < 0 {
        assert(dec_chars((-n1) as nat) =~= dec_chars_int(n1).drop_first());
        assert(dec_chars((-n2) as nat) =~= dec_chars_int(n2).drop_first());
        lemma_dec_chars_injective((-n1) as nat, (-n2) as nat);
    } else if n1 >= 0 && n2 >= 0 {
        lemma_dec_chars_injective(n1 as nat, n2 as nat);
    } else if n1 < 0 {
        lemma_dec_chars_shape(n2 as nat);
        assert(dec_chars_int(n1)[0] == '-');
        assert(false);
    } else {
        lemma_dec_chars_shape(n1 as nat);
        assert(dec_chars_int(n2)[0] == '-');
        assert(false);
    }
}

/// A character that can appear in a decimal rendering: a digit or the sign.
pub open spec fn is_dec_char(c: char) -> bool {
    c == '-' || (0x30 <= c as u32 <= 0x39)
}

/// Decimal renderings hold only digits.
pub proof fn lemma_dec_chars_digits(n: nat, i: int)
    requires
        0 <= i < dec_chars(n).len(),
    ensures
        0x30 <= dec_chars(n)[i] as u32 <= 0x39,
    decreases n,
{
    if n >= 10 {
        lemma_dec_chars_shape(n / 10);
        if i < dec_chars(n / 10).len() {
            lemma_dec_chars_digits(n / 10, i);
        }
    }
}

/// Integer renderings hold only digits and the sign.
pub proof fn lemma_dec_chars_int_digits(n: int, i: int)
    requires
        0 <= i < dec_chars_int(n).len(),
    ensures
        is_dec_char(dec_chars_int(n)[i]),
    decreases n,
{
    if n < 0 {
        if i > 0 {
            lemma_dec_chars_digits((-n) as nat, i - 1);
        }
    } else {
        lemma_dec_chars_digits(n as nat, i);
    }
}

} // verus!
