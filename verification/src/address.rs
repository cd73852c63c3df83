//! Account addresses: the texts that name them and the text that is
//! written for them.

use vstd::prelude::*;
use vstd::string::StrSliceExecFns;
use crate::hexcodec::{
    all_hex_digits, hex_decode, hex_decoded, hex_encode, hex_encoded, is_hex_digit,
};
use crate::number::zero_run_end;
use crate::text::str_chars;

verus! {

/// The number of bytes of an account address.
pub const ADDRESS_LENGTH: usize = 32;

/// `count` zero digits.
pub open spec fn zero_digits(count: nat) -> Seq<char> {
    Seq::new(count, |i: int| '0')
}

/// The address that a hex literal names: `0x`, then at most as many
/// hexadecimal digits as an address holds, read as a number and padded with
/// zeros on the left.
pub open spec fn hex_literal_address(text: Seq<char>) -> Option<Seq<u8>> {
    if text.len() >= 2 && text[0] == '0' && text[1] == 'x' && text.len() - 2 <= 2 * ADDRESS_LENGTH
        && all_hex_digits(text.skip(2)) {
        Some(
            hex_decoded(
                zero_digits((2 * ADDRESS_LENGTH - (text.len() - 2)) as nat) + text.skip(2),
            ),
        )
    } else {
        None
    }
}

/// The address that plain hexadecimal text names: exactly two digits for
/// each byte of an address, without a prefix.
pub open spec fn plain_hex_address(text: Seq<char>) -> Option<Seq<u8>> {
    if text.len() == 2 * ADDRESS_LENGTH && all_hex_digits(text) {
        Some(hex_decoded(text))
    } else {
        None
    }
}

/// The short hex literal of an address: `0x`, then its lower-case
/// hexadecimal digits without leading zeros (a single `0` for address zero).
pub open spec fn address_hex_literal(bytes: Seq<u8>) -> Seq<char> {
    let digits = hex_encoded(bytes);
    seq!['0', 'x'] + digits.skip(zero_run_end(digits, 0))
}

/// An address of fewer bytes, written on the full length: the same number,
/// with zero bytes before it.
pub open spec fn widened_address(bytes: Seq<u8>) -> Seq<u8> {
    if bytes.len() <= ADDRESS_LENGTH {
        Seq::new((ADDRESS_LENGTH - bytes.len()) as nat, |i: int| 0u8) + bytes
    } else {
        bytes
    }
}

/// Reads a hex literal: `0x` and up to a full address of hexadecimal
/// digits, of either case. Everything else is refused.
pub fn address_from_hex_literal(text: &str) -> (out: Option<Vec<u8>>)
    ensures
        match out {
            Some(bytes) => hex_literal_address(text@) == Some(bytes@) && bytes@.len()
                == ADDRESS_LENGTH,
            None => hex_literal_address(text@) is None,
        },
{
    let chars = str_chars(text);
    let n = chars.len();
    if n < 2 || chars[0] != '0' || chars[1] != 'x' {
        return None;
    }
    if n - 2 > 2 * ADDRESS_LENGTH {
        return None;
    }
    let pad = 2 * ADDRESS_LENGTH - (n - 2);
    let ghost rest = text@.skip(2);
    let mut padded = String::new();
    let mut i: usize = 0;
    while i < pad
        invariant
            i <= pad,
            padded@ =~= zero_digits(i as nat),
        decreases pad - i,
    {
        padded.push('0');
        i += 1;
    }
    let mut j: usize = 2;
    while j < n
        invariant
            2 <= j <= n,
            n == chars@.len(),
            chars@ == text@,
            padded@ =~= zero_digits(pad as nat) + chars@.subrange(2, j as int),
        decreases n - j,
    {
        padded.push(chars[j]);
        j += 1;
    }
    proof {
        assert(chars@.subrange(2, n as int) =~= rest);
        let whole = zero_digits(pad as nat) + rest;
        assert(padded@ == whole);
        assert(whole.len() == 2 * ADDRESS_LENGTH);
        if all_hex_digits(rest) {
            assert forall|k: int| 0 <= k < whole.len() implies is_hex_digit(
                #[trigger] whole[k],
            ) by {
                if k >= pad {
                    assert(whole[k] == rest[k - pad]);
                }
            }
        }
        if all_hex_digits(whole) {
            assert forall|k: int| 0 <= k < rest.len() implies is_hex_digit(#[trigger] rest[k]) by {
                assert(rest[k] == whole[k + pad]);
            }
        }
    }
    hex_decode(padded.as_str())
}

/// Reads plain hexadecimal text of exactly the length of an address,
/// without a prefix. Everything else is refused.
pub fn address_from_text(text: &str) -> (out: Option<Vec<u8>>)
    ensures
        match out {
            Some(bytes) => plain_hex_address(text@) == Some(bytes@) && bytes@.len()
                == ADDRESS_LENGTH,
            None => plain_hex_address(text@) is None,
        },
{
    if text.unicode_len() != 2 * ADDRESS_LENGTH {
        return None;
    }
    hex_decode(text)
}

/// The short hex literal of `bytes`: `0x` and the hexadecimal digits
/// without leading zeros.
pub fn short_hex_literal(bytes: &Vec<u8>) -> (out: String)
    ensures
        out@ == address_hex_literal(bytes@),
{
    let digits = hex_encode(bytes);
    let chars = str_chars(digits.as_str());
    let n = chars.len();
    let mut k: usize = 0;
    while k < n && n - k > 1 && chars[k] == '0'
        invariant
            k <= n,
            n == chars@.len(),
            zero_run_end(chars@, 0) == zero_run_end(chars@, k as int),
        decreases n - k,
    {
        k += 1;
    }
    let mut out = String::new();
    out.push('0');
    out.push('x');
    let ghost head = out@;
    let mut i: usize = k;
    while i < n
        invariant
            k <= i <= n,
            n == chars@.len(),
            out@ == head + chars@.subrange(k as int, i as int),
        decreases n - i,
    {
        out.push(chars[i]);
        proof {
            assert(chars@.subrange(k as int, i as int).push(chars@[i as int]) =~= chars@.subrange(
                k as int,
                i + 1,
            ));
        }
        i += 1;
    }
    proof {
        assert(head =~= seq!['0', 'x']);
        assert(chars@.subrange(k as int, n as int) =~= chars@.skip(k as int));
    }
    out
}

/// Writes an address of fewer bytes on the full length, with zero bytes
/// before it; longer ones are left as they are.
pub fn widen_address(bytes: &Vec<u8>) -> (out: Vec<u8>)
    ensures
        out@ == widened_address(bytes@),
{
    let mut out: Vec<u8> = Vec::new();
    if bytes.len() <= ADDRESS_LENGTH {
        let pad = ADDRESS_LENGTH - bytes.len();
        let mut i: usize = 0;
        while i < pad
            invariant
                i <= pad,
                out@ =~= Seq::new(i as nat, |k: int| 0u8),
            decreases pad - i,
        {
            out.push(0u8);
            i += 1;
        }
    }
    let ghost head = out@;
    let mut j: usize = 0;
    while j < bytes.len()
        invariant
            j <= bytes@.len(),
            out@ =~= head + bytes@.take(j as int),
        decreases bytes@.len() - j,
    {
        out.push(bytes[j]);
        j += 1;
    }
    proof {
        assert(bytes@.take(bytes@.len() as int) =~= bytes@);
        assert(Seq::<u8>::empty() + bytes@ =~= bytes@);
    }
    out
}

} // verus!
