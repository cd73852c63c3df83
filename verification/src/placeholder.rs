//! Positional generic placeholders (`T0`, `T1`, ...) inside declared
//! parameter types, and their textual substitution by type arguments.

use vstd::prelude::*;
use vstd::string::StringExecFns;
use crate::text::{
    decimal_digit_of, decimal_value, is_decimal_digit, is_decimal_digit_char,
    lemma_decimal_value_prefix, str_chars, texts,
};

verus! {

/// A character that may be part of an identifier: an ASCII letter, an ASCII
/// digit or an underscore.
pub open spec fn is_ident_char(c: char) -> bool {
    ('a' <= c <= 'z') || ('A' <= c <= 'Z') || ('0' <= c <= '9') || c == '_'
}

/// The first position at or after `from` that holds no decimal digit
/// (the length of `s` when the digits run to the end).
pub open spec fn digit_run_end(s: Seq<char>, from: int) -> int
    decreases s.len() - from,
{
    if 0 <= from < s.len() && is_decimal_digit(s[from]) {
        digit_run_end(s, from + 1)
    } else {
        from
    }
}

/// Whether a placeholder token starts at `start`: the letter `T`, then one or
/// more decimal digits, with no identifier character directly before the `T`
/// nor directly after the digits.
pub open spec fn is_placeholder_start(s: Seq<char>, start: int) -> bool {
    &&& 0 <= start
    &&& start + 1 < s.len()
    &&& s[start] == 'T'
    &&& is_decimal_digit(s[start + 1])
    &&& (start == 0 || !is_ident_char(s[start - 1]))
    &&& (digit_run_end(s, start + 1) == s.len() || !is_ident_char(s[digit_run_end(s, start + 1)]))
}

/// The span of the placeholder token that starts at `start`: where its digits
/// begin and where the token ends.
pub open spec fn placeholder_span(s: Seq<char>, start: int) -> Option<(int, int)> {
    if is_placeholder_start(s, start) {
        Some((start + 1, digit_run_end(s, start + 1)))
    } else {
        None
    }
}

/// The text that replaces the placeholder token `s[start..end)`: the type
/// argument its digits select, or the token itself where they select none.
pub open spec fn placeholder_replacement(
    s: Seq<char>,
    args: Seq<Seq<char>>,
    start: int,
    end: int,
) -> Seq<char> {
    let index = decimal_value(s.subrange(start + 1, end));
    if index < args.len() {
        args[index as int]
    } else {
        s.subrange(start, end)
    }
}

/// `s[from..]` with every placeholder token replaced, scanning left to right.
pub open spec fn substituted_from(s: Seq<char>, args: Seq<Seq<char>>, from: int) -> Seq<char>
    decreases s.len() - from,
{
    if from < 0 || from >= s.len() {
        Seq::empty()
    } else if is_placeholder_start(s, from) {
        let end = digit_run_end(s, from + 1);
        if from < end <= s.len() {
            placeholder_replacement(s, args, from, end) + substituted_from(s, args, end)
        } else {
            Seq::empty()
        }
    } else {
        seq![s[from]] + substituted_from(s, args, from + 1)
    }
}

/// `s` with every placeholder token replaced by the type argument it names.
pub open spec fn substituted(s: Seq<char>, args: Seq<Seq<char>>) -> Seq<char> {
    substituted_from(s, args, 0)
}

/// Whether some placeholder token occurs in `s`.
pub open spec fn has_placeholder(s: Seq<char>) -> bool {
    exists|i: int| is_placeholder_start(s, i)
}

/// A digit run ends inside the text, holds digits only, and stops at the
/// first character that is no digit.
pub proof fn lemma_digit_run_end(s: Seq<char>, from: int)
    requires
        0 <= from <= s.len(),
    ensures
        from <= digit_run_end(s, from) <= s.len(),
        forall|j: int| from <= j < digit_run_end(s, from) ==> is_decimal_digit(#[trigger] s[j]),
        digit_run_end(s, from) < s.len() ==> !is_decimal_digit(s[digit_run_end(s, from)]),
    decreases s.len() - from,
{
    if from < s.len() && is_decimal_digit(s[from]) {
        lemma_digit_run_end(s, from + 1);
    }
}

/// Whether `ch` may be part of an identifier.
pub fn is_type_param_ident_char(ch: char) -> (r: bool)
    ensures
        r == is_ident_char(ch),
{
    ('a' <= ch && ch <= 'z') || ('A' <= ch && ch <= 'Z') || ('0' <= ch && ch <= '9') || ch == '_'
}

/// Looks for a placeholder token at `start` and returns where its digits
/// begin and where it ends.
pub fn type_param_placeholder_span(chars: &[char], start: usize) -> (span: Option<(usize, usize)>)
    ensures
        span is Some <==> is_placeholder_start(chars@, start as int),
        span matches Some((digits, end)) ==> placeholder_span(chars@, start as int) == Some(
            (digits as int, end as int),
        ),
{
    let n = chars.len();
    if start >= n || n - start < 2 {
        return None;
    }
    if chars[start] != 'T' {
        return None;
    }
    if !is_decimal_digit_char(chars[start + 1]) {
        return None;
    }
    if start > 0 && is_type_param_ident_char(chars[start - 1]) {
        return None;
    }
    let mut end: usize = start + 1;
    while end < n && is_decimal_digit_char(chars[end])
        invariant
            start + 1 <= end <= n,
            n == chars@.len(),
            digit_run_end(chars@, start + 1) == digit_run_end(chars@, end as int),
        decreases n - end,
    {
        end += 1;
    }
    if end < n && is_type_param_ident_char(chars[end]) {
        return None;
    }
    Some((start + 1, end))
}

/// The type argument that the digits `chars[digits..end)` select among
/// `bound` of them, if any.
fn placeholder_index(chars: &[char], digits: usize, end: usize, bound: usize) -> (index: Option<
    usize,
>)
    requires
        digits <= end <= chars@.len(),
        forall|j: int| digits <= j < end ==> is_decimal_digit(#[trigger] chars@[j]),
    ensures
        index == if decimal_value(chars@.subrange(digits as int, end as int)) < bound {
            Some(decimal_value(chars@.subrange(digits as int, end as int)) as usize)
        } else {
            None
        },
{
    if bound == 0 {
        return None;
    }
    let ghost run = chars@.subrange(digits as int, end as int);
    let mut acc: usize = 0;
    let mut i: usize = digits;
    while i < end
        invariant
            digits <= i <= end <= chars@.len(),
            run == chars@.subrange(digits as int, end as int),
            forall|j: int| digits <= j < end ==> is_decimal_digit(#[trigger] chars@[j]),
            acc as nat == decimal_value(run.take(i - digits)),
            acc < bound,
        decreases end - i,
    {
        let d = decimal_digit_of(chars[i]);
        let next: u128 = acc as u128 * 10 + d as u128;
        proof {
            let longer = run.take(i + 1 - digits);
            assert(longer.drop_last() =~= run.take(i - digits));
            assert(longer.last() == chars@[i as int]);
            assert(decimal_value(longer) == next as nat);
            lemma_decimal_value_prefix(run, i + 1 - digits);
        }
        if next >= bound as u128 {
            return None;
        }
        acc = next as usize;
        i += 1;
    }
    proof {
        assert(run.take(end - digits) =~= run);
    }
    Some(acc)
}

/// Replaces every placeholder token of `param` by the type argument at the
/// token's index. A token whose index names no type argument stays as it is;
/// text that merely contains `T` and digits inside an identifier is no token.
pub fn substitute_type_parameters(param: &str, type_arguments: &[String]) -> (resolved: String)
    ensures
        resolved@ == substituted(param@, texts(type_arguments@)),
{
    let chars_vec = str_chars(param);
    let chars = chars_vec.as_slice();
    let ghost args = texts(type_arguments@);
    let mut resolved = String::new();
    let mut i: usize = 0;
    while i < chars.len()
        invariant
            i <= chars@.len(),
            chars@ == param@,
            args == texts(type_arguments@),
            resolved@ + substituted_from(chars@, args, i as int) == substituted(chars@, args),
        decreases chars@.len() - i,
    {
        let ghost before = resolved@;
        match type_param_placeholder_span(chars, i) {
            Some((digits, end)) => {
                proof {
                    lemma_digit_run_end(chars@, i + 1);
                }
                match placeholder_index(chars, digits, end, type_arguments.len()) {
                    Some(index) => {
                        resolved.append(type_arguments[index].as_str());
                    },
                    None => {
                        let mut j: usize = i;
                        while j < end
                            invariant
                                i <= j <= end <= chars@.len(),
                                resolved@ == before + chars@.subrange(i as int, j as int),
                            decreases end - j,
                        {
                            resolved.push(chars[j]);
                            proof {
                                assert(chars@.subrange(i as int, j as int).push(chars@[j as int])
                                    =~= chars@.subrange(i as int, j + 1));
                            }
                            j += 1;
                        }
                    },
                }
                proof {
                    let piece = placeholder_replacement(chars@, args, i as int, end as int);
                    assert(resolved@ == before + piece);
                    assert((before + piece) + substituted_from(chars@, args, end as int) =~= before
                        + (piece + substituted_from(chars@, args, end as int)));
                }
                i = end;
            },
            None => {
                resolved.push(chars[i]);
                proof {
                    assert(before.push(chars@[i as int]) + substituted_from(
                        chars@,
                        args,
                        i + 1,
                    ) =~= before + (seq![chars@[i as int]] + substituted_from(
                        chars@,
                        args,
                        i + 1,
                    )));
                }
                i += 1;
            },
        }
    }
    proof {
        assert(resolved@ + Seq::<char>::empty() =~= resolved@);
    }
    resolved
}

/// Whether a placeholder token occurs anywhere in `param`.
pub fn contains_unresolved_type_param(param: &str) -> (found: bool)
    ensures
        found == has_placeholder(param@),
{
    let chars_vec = str_chars(param);
    let chars = chars_vec.as_slice();
    let mut i: usize = 0;
    while i < chars.len()
        invariant
            i <= chars@.len(),
            chars@ == param@,
            forall|j: int| 0 <= j < i ==> !is_placeholder_start(chars@, j),
        decreases chars@.len() - i,
    {
        if type_param_placeholder_span(chars, i).is_some() {
            return true;
        }
        i += 1;
    }
    false
}

/// Text without placeholder tokens is left unchanged by substitution,
/// whatever the type arguments.
pub proof fn lemma_substitution_without_placeholder(s: Seq<char>, args: Seq<Seq<char>>)
    requires
        !has_placeholder(s),
    ensures
        substituted(s, args) == s,
{
    lemma_substituted_from_without_placeholder(s, args, 0);
    assert(s.subrange(0, s.len() as int) =~= s);
}

proof fn lemma_substituted_from_without_placeholder(s: Seq<char>, args: Seq<Seq<char>>, from: int)
    requires
        !has_placeholder(s),
        0 <= from <= s.len(),
    ensures
        substituted_from(s, args, from) == s.subrange(from, s.len() as int),
    decreases s.len() - from,
{
    if from < s.len() {
        assert(!is_placeholder_start(s, from));
        lemma_substituted_from_without_placeholder(s, args, from + 1);
        assert(seq![s[from]] + s.subrange(from + 1, s.len() as int) =~= s.subrange(
            from,
            s.len() as int,
        ));
    } else {
        assert(s.subrange(from, s.len() as int) =~= Seq::<char>::empty());
    }
}

} // verus!
