//! Primitive encodings: percent-encoding of text and decimal formatting of
//! integers.

use vstd::prelude::*;
use vstd::utf8::encode_utf8;

verus! {

/// The bytes that stay as they are in an encoded query value: ASCII letters
/// and digits and `- . _ ~ ! $ ' ( ) * , ; : @ [ ]`. Every other byte,
/// non-ASCII bytes included, is written as `%` and two hex digits.
pub open spec fn is_query_safe(b: u8) -> bool {
    ||| 0x41 <= b <= 0x5A
    ||| 0x61 <= b <= 0x7A
    ||| 0x30 <= b <= 0x39
    ||| b == 0x2D || b == 0x2E || b == 0x5F || b == 0x7E
    ||| b == 0x21 || b == 0x24 || b == 0x27 || b == 0x28 || b == 0x29
    ||| b == 0x2A || b == 0x2C || b == 0x3B || b == 0x3A || b == 0x40
    ||| b == 0x5B || b == 0x5D
}

/// The upper-case hexadecimal digit of value `d`, for `0 <= d < 16`.
pub open spec fn hex_digit(d: u8) -> char {
    if d < 10 {
        (0x30 + d) as u8 as char
    } else {
        (0x37 + d) as u8 as char
    }
}

/// The encoding of one byte.
pub open spec fn encoded_byte(b: u8) -> Seq<char> {
    if is_query_safe(b) {
        seq![b as char]
    } else {
        seq!['%', hex_digit(b / 16), hex_digit(b % 16)]
    }
}

/// The percent-encoding of a byte string, byte by byte.
pub open spec fn percent_encoded(bytes: Seq<u8>) -> Seq<char>
    decreases bytes.len(),
{
    if bytes.len() == 0 {
        Seq::empty()
    } else {
        encoded_byte(bytes[0]) + percent_encoded(bytes.drop_first())
    }
}

/// The value of a hexadecimal digit of either case, or -1.
pub open spec fn hex_value(c: char) -> int {
    if '0' <= c <= '9' {
        c as int - '0' as int
    } else if 'A' <= c <= 'F' {
        c as int - 'A' as int + 10
    } else if 'a' <= c <= 'f' {
        c as int - 'a' as int + 10
    } else {
        -1
    }
}

/// Percent-decoding: `%` followed by two hex digits is the byte they spell;
/// any other character stands for its own UTF-8 bytes.
pub open spec fn percent_decoded(s: Seq<char>) -> Seq<u8>
    decreases s.len(),
{
    if s.len() == 0 {
        Seq::empty()
    } else if s.len() >= 3 && s[0] == '%' && hex_value(s[1]) >= 0 && hex_value(s[2]) >= 0 {
        seq![(hex_value(s[1]) * 16 + hex_value(s[2])) as u8] + percent_decoded(s.subrange(3, s.len() as int))
    } else {
        encode_utf8(seq![s[0]]) + percent_decoded(s.drop_first())
    }
}

/// The decimal digits of a natural number, without leading zeros.
pub open spec fn decimal_digits(n: nat) -> Seq<char>
    decreases n,
{
    if n < 10 {
        seq![hex_digit(n as u8)]
    } else {
        decimal_digits(n / 10) + seq![hex_digit((n % 10) as u8)]
    }
}

/// The decimal form of an integer, with a leading `-` when it is negative.
pub open spec fn decimal(n: int) -> Seq<char> {
    if n < 0 {
        seq!['-'] + decimal_digits((-n) as nat)
    } else {
        decimal_digits(n as nat)
    }
}

/// Decoding the percent-encoding of a byte string gives the bytes back.
pub proof fn lemma_percent_round_trip(bytes: Seq<u8>)
    ensures
        percent_decoded(percent_encoded(bytes)) == bytes,
    decreases bytes.len(),
{
    if bytes.len() > 0 {
        let b = bytes[0];
        let rest = percent_encoded(bytes.drop_first());
        let s = encoded_byte(b) + rest;
        lemma_percent_round_trip(bytes.drop_first());
        if is_query_safe(b) {
            assert(s.drop_first() =~= rest);
            assert(encode_utf8(seq![b as char]) =~= seq![b]) by {
                vstd::utf8::is_ascii_chars_encode_utf8(seq![b as char]);
            }
        } else {
            assert(s.subrange(3, s.len() as int) =~= rest);
            assert(hex_value(hex_digit(b / 16)) == b / 16);
            assert(hex_value(hex_digit(b % 16)) == b % 16);
        }
        assert(seq![b] + bytes.drop_first() =~= bytes);
    }
}

/// The text whose UTF-8 bytes a percent-encoded value spells is the text
/// that was encoded.
pub proof fn lemma_percent_round_trip_text(text: Seq<char>)
    ensures
        vstd::utf8::decode_utf8(percent_decoded(percent_encoded(encode_utf8(text)))) == text,
{
    lemma_percent_round_trip(encode_utf8(text));
    vstd::utf8::encode_utf8_decode_utf8(text);
}

/// Relies on rocket's `RawStr::percent_encode` (its default encode set):
/// every UTF-8 byte of the text that is not query-safe becomes `%` and two
/// upper-case hex digits, the others are kept, in order.
#[verifier::external_body]
pub(crate) fn percent_encode(text: &str) -> (r: String)
    ensures
        r@ == percent_encoded(encode_utf8(text@)),
{
    rocket::http::RawStr::new(text).percent_encode().as_str().to_owned()
}

/// The one-character text of a decimal digit.
fn digit_text(d: u8) -> (r: &'static str)
    requires
        d < 10,
    ensures
        r@ == seq![hex_digit(d)],
{
    proof {
        reveal_strlit("0");
        reveal_strlit("1");
        reveal_strlit("2");
        reveal_strlit("3");
        reveal_strlit("4");
        reveal_strlit("5");
        reveal_strlit("6");
        reveal_strlit("7");
        reveal_strlit("8");
        reveal_strlit("9");
    }
    if d == 0 {
        "0"
    } else if d == 1 {
        "1"
    } else if d == 2 {
        "2"
    } else if d == 3 {
        "3"
    } else if d == 4 {
        "4"
    } else if d == 5 {
        "5"
    } else if d == 6 {
        "6"
    } else if d == 7 {
        "7"
    } else if d == 8 {
        "8"
    } else {
        "9"
    }
}

/// Appends the decimal digits of `n`.
fn push_digits(out: &mut String, n: u64)
    ensures
        final(out)@ == old(out)@ + decimal_digits(n as nat),
    decreases n,
{
    if n >= 10 {
        push_digits(out, n / 10);
    }
    out.append(digit_text((n % 10) as u8));
}

/// The decimal form of `n`.
pub fn decimal_text(n: i64) -> (r: String)
    ensures
        r@ == decimal(n as int),
{
    let mut out = String::new();
    if n < 0 {
        proof {
            reveal_strlit("-");
        }
        out.append("-");
        let magnitude: u64 = (-(n + 1)) as u64 + 1;
        push_digits(&mut out, magnitude);
    } else {
        push_digits(&mut out, n as u64);
    }
    out
}

} // verus!
