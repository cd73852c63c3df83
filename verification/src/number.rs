//! Decimal integer literals of every Move width, their fixed-width
//! little-endian encoding and their canonical decimal text.

use vstd::prelude::*;
use crate::text::{
    decimal_digit_char, decimal_digit_of, decimal_digit_value, decimal_value, is_decimal_digit,
    is_decimal_digit_char, lemma_decimal_value_prefix, push_char_of_digit, str_chars,
};

verus! {

/// The integer types of Move.
#[derive(Clone, Copy, Debug, PartialEq, Eq, Structural)]
pub enum IntegerType {
    U8,
    U16,
    U32,
    U64,
    U128,
    U256,
    I8,
    I16,
    I32,
    I64,
    I128,
    I256,
}

impl IntegerType {
    /// Whether the type holds negative numbers.
    pub open spec fn signed(self) -> bool {
        match self {
            IntegerType::I8 | IntegerType::I16 | IntegerType::I32 | IntegerType::I64
            | IntegerType::I128 | IntegerType::I256 => true,
            _ => false,
        }
    }

    /// The number of bytes of a value of the type.
    pub open spec fn width(self) -> nat {
        match self {
            IntegerType::U8 | IntegerType::I8 => 1,
            IntegerType::U16 | IntegerType::I16 => 2,
            IntegerType::U32 | IntegerType::I32 => 4,
            IntegerType::U64 | IntegerType::I64 => 8,
            IntegerType::U128 | IntegerType::I128 => 16,
            IntegerType::U256 | IntegerType::I256 => 32,
        }
    }

    /// Whether `v` is a value of the type.
    pub open spec fn holds(self, v: int) -> bool {
        if self.signed() {
            -(pow256(self.width()) as int) <= 2 * v < pow256(self.width()) as int
        } else {
            0 <= v < pow256(self.width())
        }
    }

    /// Whether the type holds negative numbers.
    pub fn is_signed(self) -> (r: bool)
        ensures
            r == self.signed(),
    {
        match self {
            IntegerType::I8 | IntegerType::I16 | IntegerType::I32 | IntegerType::I64
            | IntegerType::I128 | IntegerType::I256 => true,
            _ => false,
        }
    }

    /// The number of bytes of a value of the type.
    pub fn byte_width(self) -> (r: usize)
        ensures
            r == self.width(),
            1 <= r <= 32,
    {
        match self {
            IntegerType::U8 | IntegerType::I8 => 1,
            IntegerType::U16 | IntegerType::I16 => 2,
            IntegerType::U32 | IntegerType::I32 => 4,
            IntegerType::U64 | IntegerType::I64 => 8,
            IntegerType::U128 | IntegerType::I128 => 16,
            IntegerType::U256 | IntegerType::I256 => 32,
        }
    }
}

/// 256 to the power `n`.
pub open spec fn pow256(n: nat) -> nat
    decreases n,
{
    if n == 0 {
        1
    } else {
        256 * pow256((n - 1) as nat)
    }
}

/// The number that `bytes` encode, least significant byte first.
pub open spec fn le_value(bytes: Seq<u8>) -> nat
    decreases bytes.len(),
{
    if bytes.len() == 0 {
        0
    } else {
        le_value(bytes.drop_last()) + bytes.last() as nat * pow256((bytes.len() - 1) as nat)
    }
}

/// The non-negative number that stands for `v` in two's complement on
/// `width` bytes.
pub open spec fn wire_value(v: int, width: nat) -> nat {
    if v >= 0 {
        v as nat
    } else {
        (pow256(width) + v) as nat
    }
}

/// Whether every character of `s` is a decimal digit.
pub open spec fn all_decimal_digits(s: Seq<char>) -> bool {
    forall|i: int| 0 <= i < s.len() ==> is_decimal_digit(#[trigger] s[i])
}

/// Whether `text` starts with a sign that a literal of the given signedness
/// may carry: `+` always, `-` for signed types only.
pub open spec fn has_sign(text: Seq<char>, signed: bool) -> bool {
    text.len() > 0 && (text[0] == '+' || (signed && text[0] == '-'))
}

/// The digits of a literal: the text after its sign, if it has one.
pub open spec fn literal_digits(text: Seq<char>, signed: bool) -> Seq<char> {
    if has_sign(text, signed) {
        text.skip(1)
    } else {
        text
    }
}

/// The integer that `text` denotes: an optional sign, then one or more
/// decimal digits and nothing else.
pub open spec fn integer_literal(text: Seq<char>, signed: bool) -> Option<int> {
    let digits = literal_digits(text, signed);
    if digits.len() == 0 || !all_decimal_digits(digits) {
        None
    } else if has_sign(text, signed) && text[0] == '-' {
        Some(-(decimal_value(digits) as int))
    } else {
        Some(decimal_value(digits) as int)
    }
}

/// The decimal digits of `v`, without leading zeros (`0` for zero).
pub open spec fn natural_text(v: nat) -> Seq<char>
    decreases v,
{
    if v < 10 {
        seq![decimal_digit_char(v)]
    } else {
        natural_text(v / 10).push(decimal_digit_char(v % 10))
    }
}

/// The canonical decimal text of `v`: a minus sign for negative numbers,
/// then the digits without leading zeros.
pub open spec fn integer_text(v: int) -> Seq<char> {
    if v < 0 {
        seq!['-'] + natural_text((-v) as nat)
    } else {
        natural_text(v as nat)
    }
}

/// The `n` bytes that encode `w`, least significant byte first.
pub open spec fn le_bytes(w: nat, n: nat) -> Seq<u8>
    decreases n,
{
    if n == 0 {
        Seq::empty()
    } else {
        seq![(w % 256) as u8] + le_bytes(w / 256, (n - 1) as nat)
    }
}

/// The bytes of the integer `v` of type `ty`: two's complement, as many
/// bytes as the type is wide, least significant byte first.
pub open spec fn integer_bytes(ty: IntegerType, v: int) -> Seq<u8> {
    le_bytes(wire_value(v, ty.width()), ty.width())
}

/// An integer literal that fits its type.
#[derive(Debug, Clone)]
pub struct IntegerLiteral {
    /// The type the literal was read for.
    pub ty: IntegerType,
    /// The value in two's complement, least significant byte first.
    pub bytes: Vec<u8>,
    /// The value in canonical decimal text.
    pub text: String,
}

impl IntegerLiteral {
    /// Whether the literal stands for the value `v` of its type: `v` is in
    /// the range of the type, the bytes are those of `v` and the text is
    /// the canonical text of `v`.
    pub open spec fn denotes(&self, v: int) -> bool {
        &&& self.ty.holds(v)
        &&& self.bytes@ == integer_bytes(self.ty, v)
        &&& self.text@ == integer_text(v)
    }
}

/// Every power of 256 is at least one.
pub proof fn lemma_pow256_positive(n: nat)
    ensures
        pow256(n) >= 1,
    decreases n,
{
    if n > 0 {
        lemma_pow256_positive((n - 1) as nat);
    }
}

/// A number encoded on `n` bytes is below 256 to the power `n`.
pub proof fn lemma_le_value_bound(bytes: Seq<u8>)
    ensures
        le_value(bytes) < pow256(bytes.len()),
    decreases bytes.len(),
{
    if bytes.len() > 0 {
        lemma_le_value_bound(bytes.drop_last());
        let p = pow256((bytes.len() - 1) as nat);
        let b = bytes.last() as nat;
        assert(b * p + p <= 256 * p) by (nonlinear_arith)
            requires
                b <= 255,
        ;
    }
}

/// Two byte strings of one length that encode the same number are equal.
pub proof fn lemma_le_value_injective(a: Seq<u8>, b: Seq<u8>)
    requires
        a.len() == b.len(),
        le_value(a) == le_value(b),
    ensures
        a == b,
    decreases a.len(),
{
    if a.len() > 0 {
        let p = pow256((a.len() - 1) as nat);
        lemma_pow256_positive((a.len() - 1) as nat);
        lemma_le_value_bound(a.drop_last());
        lemma_le_value_bound(b.drop_last());
        let x = a.last() as nat;
        let y = b.last() as nat;
        let ra = le_value(a.drop_last());
        let rb = le_value(b.drop_last());
        assert(x == y) by (nonlinear_arith)
            requires
                ra + x * p == rb + y * p,
                ra < p,
                rb < p,
                p >= 1,
        ;
        lemma_le_value_injective(a.drop_last(), b.drop_last());
        assert(a =~= a.drop_last().push(a.last()));
        assert(b =~= b.drop_last().push(b.last()));
    } else {
        assert(a =~= b);
    }
}

/// A byte put before a byte string counts once, and what follows it 256
/// times.
proof fn lemma_le_value_cons(b: u8, rest: Seq<u8>)
    ensures
        le_value(seq![b] + rest) == b as nat + 256 * le_value(rest),
    decreases rest.len(),
{
    let s = seq![b] + rest;
    if rest.len() == 0 {
        assert(s.drop_last() =~= Seq::<u8>::empty());
        assert(s.last() == b);
        assert(pow256(0) == 1);
        assert(le_value(s) == le_value(s.drop_last()) + b as nat * pow256(0));
    } else {
        assert(s.drop_last() =~= seq![b] + rest.drop_last());
        assert(s.last() == rest.last());
        lemma_le_value_cons(b, rest.drop_last());
        let p = pow256((rest.len() - 1) as nat);
        assert(pow256(rest.len()) == 256 * p);
        let x = rest.last() as nat;
        let r = le_value(rest.drop_last());
        assert(b as nat + 256 * r + x * (256 * p) == b as nat + 256 * (r + x * p))
            by (nonlinear_arith);
    }
}

/// The bytes of a number that fits encode that number.
pub proof fn lemma_le_bytes_value(w: nat, n: nat)
    requires
        w < pow256(n),
    ensures
        le_bytes(w, n).len() == n,
        le_value(le_bytes(w, n)) == w,
    decreases n,
{
    if n > 0 {
        let p = pow256((n - 1) as nat);
        assert(w / 256 < p) by (nonlinear_arith)
            requires
                w < 256 * p,
        ;
        lemma_le_bytes_value(w / 256, (n - 1) as nat);
        lemma_le_value_cons((w % 256) as u8, le_bytes(w / 256, (n - 1) as nat));
    }
}

/// The bytes of an integer of a type are as many as the type is wide, and
/// encode the integer in two's complement.
pub proof fn lemma_integer_bytes(ty: IntegerType, v: int)
    requires
        ty.holds(v),
    ensures
        integer_bytes(ty, v).len() == ty.width(),
        le_value(integer_bytes(ty, v)) == wire_value(v, ty.width()),
{
    lemma_pow256_positive(ty.width());
    lemma_le_bytes_value(wire_value(v, ty.width()), ty.width());
}

/// A literal denotes one value only.
pub proof fn lemma_literal_denotes_one(lit: IntegerLiteral, v: int, w: int)
    requires
        lit.denotes(v),
        lit.denotes(w),
    ensures
        v == w,
{
    lemma_integer_bytes(lit.ty, v);
    lemma_integer_bytes(lit.ty, w);
}

/// Multiplies the number in `bytes` by ten and adds the digit `d`, in place.
/// Returns what does not fit.
fn times_ten_plus(bytes: &mut Vec<u8>, d: u8) -> (carry: u8)
    requires
        d <= 9,
    ensures
        final(bytes)@.len() == old(bytes)@.len(),
        le_value(final(bytes)@) + carry as nat * pow256(old(bytes)@.len()) == le_value(old(bytes)@)
            * 10 + d as nat,
        carry <= 9,
{
    let ghost before = bytes@;
    let n = bytes.len();
    let mut carry: u8 = d;
    let mut i: usize = 0;
    proof {
        assert(bytes@.take(0) =~= Seq::<u8>::empty());
        assert(before.take(0) =~= Seq::<u8>::empty());
        assert(pow256(0) == 1);
        assert(carry as nat * pow256(0) == d as nat);
    }
    while i < n
        invariant
            i <= n,
            n == before.len(),
            bytes@.len() == n,
            carry <= 9,
            forall|j: int| i <= j < n ==> bytes@[j] == before[j],
            le_value(bytes@.take(i as int)) + carry as nat * pow256(i as nat) == le_value(
                before.take(i as int),
            ) * 10 + d as nat,
        decreases n - i,
    {
        let t: u16 = bytes[i] as u16 * 10 + carry as u16;
        let low: u8 = (t % 256) as u8;
        let high: u8 = (t / 256) as u8;
        let ghost prev = bytes@;
        bytes.set(i, low);
        proof {
            let p = pow256(i as nat);
            assert(bytes@.take(i + 1).drop_last() =~= prev.take(i as int));
            assert(before.take(i + 1).drop_last() =~= before.take(i as int));
            assert(bytes@.take(i + 1).last() == low);
            assert(before.take(i + 1).last() == before[i as int]);
            assert(pow256((i + 1) as nat) == 256 * p);
            let a = le_value(prev.take(i as int));
            let b = le_value(before.take(i as int));
            let x = before[i as int] as nat;
            let c = carry as nat;
            let l = low as nat;
            let h = high as nat;
            assert(l + 256 * h == x * 10 + c);
            assert(a + l * p + h * (256 * p) == (b + x * p) * 10 + d as nat) by (nonlinear_arith)
                requires
                    a + c * p == b * 10 + d as nat,
                    l + 256 * h == x * 10 + c,
            ;
        }
        carry = high;
        i += 1;
    }
    proof {
        assert(bytes@.take(n as int) =~= bytes@);
        assert(before.take(n as int) =~= before);
    }
    carry
}

/// `n` zero bytes.
fn zero_bytes(n: usize) -> (out: Vec<u8>)
    ensures
        out@.len() == n,
        le_value(out@) == 0,
        forall|j: int| 0 <= j < n ==> out@[j] == 0,
{
    let mut out: Vec<u8> = Vec::new();
    let mut i: usize = 0;
    while i < n
        invariant
            i <= n,
            out@.len() == i,
            le_value(out@) == 0,
            forall|j: int| 0 <= j < i ==> out@[j] == 0,
        decreases n - i,
    {
        let ghost prev = out@;
        out.push(0u8);
        proof {
            assert(out@.drop_last() =~= prev);
            assert(out@.last() == 0);
            assert(le_value(out@) == le_value(out@.drop_last()) + 0 * pow256(
                (out@.len() - 1) as nat,
            ));
        }
        i += 1;
    }
    out
}

/// The number written by the digits `chars[from..]`, on `n` bytes; `None`
/// when it does not fit.
fn magnitude_bytes(chars: &Vec<char>, from: usize, n: usize) -> (out: Option<Vec<u8>>)
    requires
        from <= chars@.len(),
        all_decimal_digits(chars@.skip(from as int)),
    ensures
        match out {
            Some(bytes) => bytes@.len() == n && le_value(bytes@) == decimal_value(
                chars@.skip(from as int),
            ),
            None => decimal_value(chars@.skip(from as int)) >= pow256(n as nat),
        },
{
    let ghost digits = chars@.skip(from as int);
    let mut bytes = zero_bytes(n);
    let mut i: usize = from;
    proof {
        assert(digits.take(0) =~= Seq::<char>::empty());
    }
    while i < chars.len()
        invariant
            from <= i <= chars@.len(),
            digits == chars@.skip(from as int),
            all_decimal_digits(digits),
            bytes@.len() == n,
            le_value(bytes@) == decimal_value(digits.take(i - from)),
        decreases chars@.len() - i,
    {
        assert(chars@[i as int] == digits[i - from]);
        let d = decimal_digit_of(chars[i]);
        let carry = times_ten_plus(&mut bytes, d);
        proof {
            let longer = digits.take(i + 1 - from);
            assert(longer.drop_last() =~= digits.take(i - from));
            assert(longer.last() == chars@[i as int]);
            lemma_decimal_value_prefix(digits, i + 1 - from);
            if carry != 0 {
                lemma_pow256_positive(n as nat);
                let p = pow256(n as nat);
                let c = carry as nat;
                assert(c * p >= p) by (nonlinear_arith)
                    requires
                        c >= 1,
                ;
            }
        }
        if carry != 0 {
            return None;
        }
        i += 1;
    }
    proof {
        assert(digits.take(chars@.len() - from) =~= digits);
    }
    Some(bytes)
}

/// A prefix of a byte string encodes at most what the whole encodes.
pub proof fn lemma_le_value_prefix(bytes: Seq<u8>, k: int)
    requires
        0 <= k <= bytes.len(),
    ensures
        le_value(bytes.take(k)) <= le_value(bytes),
    decreases bytes.len(),
{
    if k == bytes.len() {
        assert(bytes.take(k) =~= bytes);
    } else {
        lemma_le_value_prefix(bytes.drop_last(), k);
        assert(bytes.drop_last().take(k) =~= bytes.take(k));
    }
}

/// Whether the first `upto` bytes encode zero.
fn low_bytes_zero(bytes: &Vec<u8>, upto: usize) -> (r: bool)
    requires
        upto <= bytes@.len(),
    ensures
        r == (le_value(bytes@.take(upto as int)) == 0),
{
    let ghost low = bytes@.take(upto as int);
    let mut i: usize = 0;
    proof {
        assert(low.take(0) =~= Seq::<u8>::empty());
    }
    while i < upto
        invariant
            i <= upto <= bytes@.len(),
            low == bytes@.take(upto as int),
            le_value(low.take(i as int)) == 0,
        decreases upto - i,
    {
        proof {
            let next = low.take(i + 1);
            assert(next.drop_last() =~= low.take(i as int));
            assert(next.last() == bytes@[i as int]);
            lemma_pow256_positive(i as nat);
            lemma_le_value_prefix(low, i + 1);
            let b = bytes@[i as int] as nat;
            let p = pow256(i as nat);
            assert(b >= 1 ==> b * p >= 1) by (nonlinear_arith)
                requires
                    p >= 1,
            ;
            assert(b == 0 ==> b * p == 0) by (nonlinear_arith);
        }
        if bytes[i] != 0 {
            return false;
        }
        i += 1;
    }
    proof {
        assert(low.take(upto as int) =~= low);
    }
    true
}

/// The two's complement of the number in `bytes`, on as many bytes.
fn negated(bytes: &Vec<u8>) -> (out: Vec<u8>)
    ensures
        out@.len() == bytes@.len(),
        le_value(bytes@) == 0 ==> le_value(out@) == 0,
        le_value(bytes@) > 0 ==> le_value(out@) + le_value(bytes@) == pow256(bytes@.len()),
{
    let n = bytes.len();
    let mut out: Vec<u8> = Vec::new();
    let mut borrow: u8 = 0;
    let mut i: usize = 0;
    proof {
        assert(bytes@.take(0) =~= Seq::<u8>::empty());
        assert(0 * pow256(0) == 0);
    }
    while i < n
        invariant
            i <= n,
            n == bytes@.len(),
            out@.len() == i,
            borrow <= 1,
            le_value(out@) + le_value(bytes@.take(i as int)) == borrow as nat * pow256(i as nat),
        decreases n - i,
    {
        let t: u16 = bytes[i] as u16 + borrow as u16;
        let digit: u8 = if t == 0 {
            0
        } else {
            (256 - t) as u8
        };
        let ghost prev = out@;
        out.push(digit);
        proof {
            let p = pow256(i as nat);
            assert(out@.drop_last() =~= prev);
            assert(out@.last() == digit);
            assert(bytes@.take(i + 1).drop_last() =~= bytes@.take(i as int));
            assert(bytes@.take(i + 1).last() == bytes@[i as int]);
            assert(pow256((i + 1) as nat) == 256 * p);
            let a = le_value(prev);
            let b = le_value(bytes@.take(i as int));
            let x = bytes@[i as int] as nat;
            let g = digit as nat;
            let c = borrow as nat;
            if t == 0 {
                assert(a + g * p + (b + x * p) == 0) by (nonlinear_arith)
                    requires
                        a + b == c * p,
                        g == 0,
                        x == 0,
                        c == 0,
                ;
                assert(0 * pow256((i + 1) as nat) == 0);
            } else {
                assert(a + g * p + (b + x * p) == 1 * (256 * p)) by (nonlinear_arith)
                    requires
                        a + b == c * p,
                        g + x + c == 256,
                ;
            }
        }
        borrow = if t == 0 {
            0
        } else {
            1
        };
        i += 1;
    }
    proof {
        assert(bytes@.take(n as int) =~= bytes@);
        lemma_le_value_bound(out@);
        lemma_le_value_bound(bytes@);
        lemma_pow256_positive(n as nat);
        let p = pow256(n as nat);
        if borrow == 0 {
            assert(0 * p == 0);
        } else {
            assert(1 * p == p);
        }
    }
    out
}

/// The first position of `s` at or after `from` that holds no `0`, or the
/// last position of `s` when only zeros follow.
pub open spec fn zero_run_end(s: Seq<char>, from: int) -> int
    decreases s.len() - from,
{
    if 0 <= from && from + 1 < s.len() && s[from] == '0' {
        zero_run_end(s, from + 1)
    } else {
        from
    }
}

/// A run of zeros ends inside the text, holds zeros only, and stops at
/// the first other character or at the last position.
pub proof fn lemma_zero_run_end(s: Seq<char>, from: int)
    requires
        0 <= from < s.len(),
    ensures
        from <= zero_run_end(s, from) < s.len(),
        forall|j: int| from <= j < zero_run_end(s, from) ==> #[trigger] s[j] == '0',
        s[zero_run_end(s, from)] != '0' || zero_run_end(s, from) == s.len() - 1,
    decreases s.len() - from,
{
    if from + 1 < s.len() && s[from] == '0' {
        lemma_zero_run_end(s, from + 1);
    }
}

/// A run of zeros denotes zero.
pub proof fn lemma_decimal_value_zeros(digits: Seq<char>)
    requires
        forall|j: int| 0 <= j < digits.len() ==> #[trigger] digits[j] == '0',
    ensures
        decimal_value(digits) == 0,
    decreases digits.len(),
{
    if digits.len() > 0 {
        lemma_decimal_value_zeros(digits.drop_last());
    }
}

/// Leading zeros do not change what a run of digits denotes.
pub proof fn lemma_decimal_value_skip_zeros(digits: Seq<char>, k: int)
    requires
        0 <= k <= digits.len(),
        forall|j: int| 0 <= j < k ==> #[trigger] digits[j] == '0',
    ensures
        decimal_value(digits.skip(k)) == decimal_value(digits),
    decreases digits.len(),
{
    if k == digits.len() {
        lemma_decimal_value_zeros(digits);
        assert(digits.skip(k) =~= Seq::<char>::empty());
    } else {
        lemma_decimal_value_skip_zeros(digits.drop_last(), k);
        assert(digits.skip(k).drop_last() =~= digits.drop_last().skip(k));
    }
}

/// Digits that begin with a non-zero digit denote a positive number.
pub proof fn lemma_decimal_value_positive(digits: Seq<char>)
    requires
        digits.len() > 0,
        all_decimal_digits(digits),
        digits[0] != '0',
    ensures
        decimal_value(digits) > 0,
    decreases digits.len(),
{
    if digits.len() > 1 {
        lemma_decimal_value_positive(digits.drop_last());
    } else {
        assert(is_decimal_digit(digits[0]));
    }
}

/// Digits without a leading zero are the canonical text of their number.
pub proof fn lemma_canonical_digits(digits: Seq<char>)
    requires
        digits.len() > 0,
        all_decimal_digits(digits),
        digits[0] != '0' || digits.len() == 1,
    ensures
        natural_text(decimal_value(digits)) == digits,
    decreases digits.len(),
{
    let last = digits.last();
    assert(is_decimal_digit(last));
    assert(decimal_digit_char(decimal_digit_value(last)) == last);
    if digits.len() == 1 {
        assert(digits.drop_last() =~= Seq::<char>::empty());
        assert(decimal_value(digits.drop_last()) == 0);
        assert(digits =~= seq![last]);
    } else {
        let init = digits.drop_last();
        assert(all_decimal_digits(init)) by {
            assert forall|i: int| 0 <= i < init.len() implies is_decimal_digit(
                #[trigger] init[i],
            ) by {
                assert(init[i] == digits[i]);
            }
        }
        lemma_canonical_digits(init);
        lemma_decimal_value_positive(init);
        let v = decimal_value(init);
        let d = decimal_digit_value(last);
        assert((v * 10 + d) / 10 == v && (v * 10 + d) % 10 == d) by (nonlinear_arith)
            requires
                d < 10,
        ;
        assert(digits =~= init.push(last));
    }
}

/// The text of the literal whose digits are `chars[from..]`.
fn canonical_text(chars: &Vec<char>, from: usize, negative: bool) -> (out: String)
    requires
        from < chars@.len(),
        all_decimal_digits(chars@.skip(from as int)),
    ensures
        out@ == integer_text(
            if negative {
                -(decimal_value(chars@.skip(from as int)) as int)
            } else {
                decimal_value(chars@.skip(from as int)) as int
            },
        ),
{
    let ghost digits = chars@.skip(from as int);
    let n = chars.len();
    let mut k: usize = from;
    while k + 1 < n && chars[k] == '0'
        invariant
            from <= k < n,
            n == chars@.len(),
            digits == chars@.skip(from as int),
            zero_run_end(digits, 0) == zero_run_end(digits, k - from),
        decreases n - k,
    {
        assert(digits[k - from] == chars@[k as int]);
        k += 1;
    }
    assert(digits[k - from] == chars@[k as int]);
    let ghost kept = digits.skip(k - from);
    proof {
        lemma_zero_run_end(digits, 0);
        lemma_decimal_value_skip_zeros(digits, k - from);
        assert(all_decimal_digits(kept)) by {
            assert forall|i: int| 0 <= i < kept.len() implies is_decimal_digit(
                #[trigger] kept[i],
            ) by {
                assert(kept[i] == digits[i + k - from]);
            }
        }
        lemma_canonical_digits(kept);
        if kept[0] != '0' {
            lemma_decimal_value_positive(kept);
        } else {
            lemma_decimal_value_zeros(kept);
        }
    }
    let mut out = String::new();
    if negative && chars[k] != '0' {
        out.push('-');
    }
    let ghost head = out@;
    let mut i: usize = k;
    while i < n
        invariant
            k <= i <= n,
            n == chars@.len(),
            out@ == head + chars@.subrange(k as int, i as int),
        decreases n - i,
    {
        out.push(chars[i]);
        proof {
            assert(chars@.subrange(k as int, i as int).push(chars@[i as int]) =~= chars@.subrange(
                k as int,
                i + 1,
            ));
        }
        i += 1;
    }
    proof {
        assert(chars@.subrange(k as int, n as int) =~= kept);
        assert(Seq::<char>::empty() + kept =~= kept);
    }
    out
}

/// Whether the characters `chars[from..]` are decimal digits.
fn digits_from(chars: &Vec<char>, from: usize) -> (r: bool)
    requires
        from <= chars@.len(),
    ensures
        r == all_decimal_digits(chars@.skip(from as int)),
{
    let ghost digits = chars@.skip(from as int);
    let mut i: usize = from;
    while i < chars.len()
        invariant
            from <= i <= chars@.len(),
            digits == chars@.skip(from as int),
            forall|j: int| 0 <= j < i - from ==> is_decimal_digit(#[trigger] digits[j]),
        decreases chars@.len() - i,
    {
        if !is_decimal_digit_char(chars[i]) {
            assert(digits[i - from] == chars@[i as int]);
            return false;
        }
        assert(digits[i - from] == chars@[i as int]);
        i += 1;
    }
    true
}

/// Reads `text` as a literal of the integer type `ty`: an optional sign (`-`
/// for signed types only), then decimal digits and nothing else. Gives the
/// value in the type's fixed-width little-endian encoding and in canonical
/// decimal text, or `None` when `text` is no such literal or its value is
/// out of the type's range.
pub fn parse_integer(text: &str, ty: IntegerType) -> (out: Option<IntegerLiteral>)
    ensures
        match integer_literal(text@, ty.signed()) {
            Some(v) => if ty.holds(v) {
                out matches Some(lit) && lit.ty == ty && lit.denotes(v)
            } else {
                out is None
            },
            None => out is None,
        },
{
    let chars = str_chars(text);
    let signed = ty.is_signed();
    let n = ty.byte_width();
    let mut from: usize = 0;
    let mut negative = false;
    if chars.len() > 0 {
        if chars[0] == '+' {
            from = 1;
        } else if signed && chars[0] == '-' {
            from = 1;
            negative = true;
        }
    }
    assert(chars@.skip(from as int) =~= literal_digits(text@, ty.signed()));
    if from >= chars.len() {
        return None;
    }
    if !digits_from(&chars, from) {
        return None;
    }
    let ghost m = decimal_value(chars@.skip(from as int));
    let magnitude = match magnitude_bytes(&chars, from, n) {
        Some(bytes) => bytes,
        None => {
            proof {
                lemma_pow256_positive(n as nat);
            }
            return None;
        },
    };
    proof {
        lemma_le_value_bound(magnitude@);
    }
    let bytes = if signed {
        let top = magnitude[n - 1];
        let low_zero = low_bytes_zero(&magnitude, n - 1);
        proof {
            let p = pow256((n - 1) as nat);
            let low = le_value(magnitude@.take(n - 1));
            assert(magnitude@.drop_last() =~= magnitude@.take(n - 1));
            lemma_le_value_bound(magnitude@.take(n - 1));
            lemma_pow256_positive((n - 1) as nat);
            assert(pow256(n as nat) == 256 * p);
            let t = top as nat;
            assert(m == low + t * p);
            assert(t < 128 ==> 2 * (low + t * p) < 256 * p) by (nonlinear_arith)
                requires
                    low < p,
            ;
            assert(t >= 128 ==> 2 * (low + t * p) >= 256 * p) by (nonlinear_arith)
                requires
                    p >= 1,
            ;
            assert(t == 128 ==> low + t * p == 128 * p + low) by (nonlinear_arith);
            assert(t > 128 ==> 2 * (low + t * p) > 256 * p) by (nonlinear_arith)
                requires
                    p >= 1,
            ;
        }
        if negative {
            if top < 128 || (top == 128 && low_zero) {
                negated(&magnitude)
            } else {
                return None;
            }
        } else {
            if top < 128 {
                magnitude
            } else {
                return None;
            }
        }
    } else {
        magnitude
    };
    let canonical = canonical_text(&chars, from, negative);
    proof {
        let v = integer_literal(text@, ty.signed())->Some_0;
        lemma_integer_bytes(ty, v);
        lemma_le_value_injective(bytes@, integer_bytes(ty, v));
    }
    Some(IntegerLiteral { ty, bytes, text: canonical })
}

/// Appends the decimal digits of `v` to `out`, without leading zeros.
pub fn push_natural(v: u64, out: &mut String)
    ensures
        final(out)@ == old(out)@ + natural_text(v as nat),
    decreases v,
{
    if v < 10 {
        push_char_of_digit(v as u8, out);
        proof {
            assert(old(out)@.push(decimal_digit_char(v as nat)) =~= old(out)@ + natural_text(
                v as nat,
            ));
        }
    } else {
        push_natural(v / 10, out);
        push_char_of_digit((v % 10) as u8, out);
        proof {
            assert((old(out)@ + natural_text((v / 10) as nat)).push(
                decimal_digit_char((v % 10) as nat),
            ) =~= old(out)@ + natural_text(v as nat));
        }
    }
}

/// The decimal text of `v`, without leading zeros.
pub fn natural_string(v: u64) -> (out: String)
    ensures
        out@ == natural_text(v as nat),
{
    let mut out = String::new();
    push_natural(v, &mut out);
    proof {
        assert(Seq::<char>::empty() + natural_text(v as nat) =~= natural_text(v as nat));
    }
    out
}

/// The number that up to sixteen bytes encode, least significant byte
/// first.
pub fn le_u128(bytes: &Vec<u8>) -> (out: u128)
    requires
        bytes@.len() <= 16,
    ensures
        out == le_value(bytes@),
{
    let n = bytes.len();
    let mut acc: u128 = 0;
    let mut i: usize = n;
    proof {
        assert(bytes@.skip(n as int) =~= Seq::<u8>::empty());
        lemma_pow256_of_sixteen();
    }
    while i > 0
        invariant
            i <= n <= 16,
            n == bytes@.len(),
            acc == le_value(bytes@.skip(i as int)),
            acc < pow256((n - i) as nat),
            pow256(16) == 0x1_0000_0000_0000_0000_0000_0000_0000_0000,
        decreases i,
    {
        proof {
            let rest = bytes@.skip(i as int);
            assert(bytes@.skip(i - 1) =~= seq![bytes@[i - 1]] + rest);
            lemma_le_value_cons(bytes@[i - 1], rest);
            lemma_le_value_bound(bytes@.skip(i - 1));
            lemma_pow256_monotone((n - (i - 1)) as nat, 16);
        }
        acc = acc * 256 + bytes[i - 1] as u128;
        i -= 1;
    }
    proof {
        assert(bytes@.skip(0) =~= bytes@);
    }
    acc
}

/// The number that eight bytes encode, least significant byte first.
pub fn le_u64(bytes: &Vec<u8>) -> (out: u64)
    requires
        bytes@.len() == 8,
    ensures
        out == le_value(bytes@),
{
    proof {
        lemma_le_value_bound(bytes@);
        lemma_pow256_of_eight();
    }
    le_u128(bytes) as u64
}

/// Eight bytes hold the numbers below two to the power 64.
pub proof fn lemma_pow256_of_eight()
    ensures
        pow256(8) == 0x1_0000_0000_0000_0000,
{
    reveal_with_fuel(pow256, 10);
}

/// Sixteen bytes hold the numbers below two to the power 128.
pub proof fn lemma_pow256_of_sixteen()
    ensures
        pow256(16) == 0x1_0000_0000_0000_0000_0000_0000_0000_0000,
{
    reveal_with_fuel(pow256, 18);
}

/// Powers of 256 grow with the exponent.
pub proof fn lemma_pow256_monotone(a: nat, b: nat)
    requires
        a <= b,
    ensures
        pow256(a) <= pow256(b),
    decreases b,
{
    if a < b {
        lemma_pow256_monotone(a, (b - 1) as nat);
        lemma_pow256_positive((b - 1) as nat);
    }
}

} // verus!
