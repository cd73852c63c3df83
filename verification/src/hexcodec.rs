//! Hexadecimal text and the bytes it stands for.

use vstd::prelude::*;

verus! {

/// An ASCII hexadecimal digit, of either case.
pub open spec fn is_hex_digit(c: char) -> bool {
    ('0' <= c <= '9') || ('a' <= c <= 'f') || ('A' <= c <= 'F')
}

/// The number a hexadecimal digit stands for.
pub open spec fn hex_digit_value(c: char) -> nat {
    if '0' <= c <= '9' {
        (c as int - '0' as int) as nat
    } else if 'a' <= c <= 'f' {
        (c as int - 'a' as int + 10) as nat
    } else {
        (c as int - 'A' as int + 10) as nat
    }
}

/// The lower-case hexadecimal digit of a number below sixteen.
pub open spec fn hex_digit_char(v: nat) -> char {
    if v < 10 {
        (('0' as int + v) as u8) as char
    } else {
        (('a' as int + v - 10) as u8) as char
    }
}

/// Whether every character of `s` is a hexadecimal digit.
pub open spec fn all_hex_digits(s: Seq<char>) -> bool {
    forall|i: int| 0 <= i < s.len() ==> is_hex_digit(#[trigger] s[i])
}

/// Text that stands for whole bytes: an even number of hexadecimal digits.
pub open spec fn is_hex_text(s: Seq<char>) -> bool {
    s.len() % 2 == 0 && all_hex_digits(s)
}

/// The bytes that hexadecimal text stands for, two digits per byte, the
/// more significant digit first.
pub open spec fn hex_decoded(s: Seq<char>) -> Seq<u8> {
    Seq::new(
        s.len() / 2,
        |i: int| (16 * hex_digit_value(s[2 * i]) + hex_digit_value(s[2 * i + 1])) as u8,
    )
}

/// The lower-case hexadecimal text of `bytes`, two digits per byte.
pub open spec fn hex_encoded(bytes: Seq<u8>) -> Seq<char> {
    Seq::new(
        2 * bytes.len(),
        |i: int|
            if i % 2 == 0 {
                hex_digit_char((bytes[i / 2] / 16) as nat)
            } else {
                hex_digit_char((bytes[i / 2] % 16) as nat)
            },
    )
}

/// `hex::decode`: accepts an even number of hexadecimal digits of either
/// case and gives the bytes they stand for; any other text is refused.
#[verifier::external_body]
pub(crate) fn hex_decode(text: &str) -> (out: Option<Vec<u8>>)
    ensures
        match out {
            Some(bytes) => is_hex_text(text@) && bytes@ == hex_decoded(text@),
            None => !is_hex_text(text@),
        },
{
    match hex::decode(text) {
        Ok(bytes) => Some(bytes),
        Err(_) => None,
    }
}

/// `hex::encode`: the lower-case hexadecimal text of the bytes.
#[verifier::external_body]
pub(crate) fn hex_encode(bytes: &Vec<u8>) -> (out: String)
    ensures
        out@ == hex_encoded(bytes@),
{
    hex::encode(bytes)
}

/// Hexadecimal text that was written for bytes reads back as those bytes.
pub proof fn lemma_hex_round_trip(bytes: Seq<u8>)
    ensures
        is_hex_text(hex_encoded(bytes)),
        hex_decoded(hex_encoded(bytes)) == bytes,
{
    let digits = hex_encoded(bytes);
    assert forall|v: nat| v < 16 implies is_hex_digit(#[trigger] hex_digit_char(v))
        && hex_digit_value(hex_digit_char(v)) == v by {}
    assert forall|i: int| 0 <= i < digits.len() implies is_hex_digit(#[trigger] digits[i]) by {
        let b = bytes[i / 2];
        assert(((b / 16) as nat) < 16 && ((b % 16) as nat) < 16);
    }
    assert forall|i: int| 0 <= i < bytes.len() implies #[trigger] hex_decoded(digits)[i]
        == bytes[i] by {
        let b = bytes[i];
        assert(digits[2 * i] == hex_digit_char((b / 16) as nat));
        assert(digits[2 * i + 1] == hex_digit_char((b % 16) as nat));
        assert(((b / 16) as nat) < 16 && ((b % 16) as nat) < 16);
    }
    assert(hex_decoded(digits) =~= bytes);
}

} // verus!
