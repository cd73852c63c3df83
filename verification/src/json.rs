//! The JSON values that payloads and literals are made of.

use vstd::prelude::*;
use crate::number::{
    integer_literal, le_u64, lemma_integer_bytes, lemma_pow256_of_eight, parse_integer,
    IntegerType,
};
use crate::text::{decimal_value, is_decimal_digit, is_index_text, str_chars, str_eq};

verus! {

/// A JSON value. A number is kept as the text that a JSON writer prints for
/// it (`12`, `-3`, `1.5`, `1e30`), so that no precision is lost. An object
/// keeps its members in the order in which they were written.
#[derive(Debug, PartialEq)]
pub enum JsonValue {
    Null,
    Bool(bool),
    Number(String),
    String(String),
    Array(Vec<JsonValue>),
    Object(Vec<JsonMember>),
}

/// A member of a JSON object.
#[derive(Debug, PartialEq)]
pub struct JsonMember {
    pub name: String,
    pub value: JsonValue,
}

/// The position of the first member called `name` at or after `from`, or
/// the number of members when there is none.
pub open spec fn member_position(members: Seq<JsonMember>, name: Seq<char>, from: int) -> int
    decreases members.len() - from,
{
    if 0 <= from < members.len() && members[from].name@ != name {
        member_position(members, name, from + 1)
    } else {
        from
    }
}

/// The member of an object that is called `name`; nothing for a value that
/// is no object or has no such member.
pub open spec fn member_of(value: JsonValue, name: Seq<char>) -> Option<JsonValue> {
    match value {
        JsonValue::Object(members) => {
            let at = member_position(members@, name, 0);
            if at < members@.len() {
                Some(members@[at].value)
            } else {
                None
            }
        },
        _ => None,
    }
}

/// The text of a string or of a number; the empty text for other values.
pub open spec fn text_of_value(value: JsonValue) -> Seq<char> {
    match value {
        JsonValue::String(s) => s@,
        JsonValue::Number(n) => n@,
        _ => Seq::empty(),
    }
}

/// The text found by following `keys[from..]` from member to member; the
/// empty text where the way ends early.
pub open spec fn nested_text(value: JsonValue, keys: Seq<&str>, from: int) -> Seq<char>
    decreases keys.len() - from,
{
    if from < 0 || from >= keys.len() {
        text_of_value(value)
    } else {
        match member_of(value, keys[from]@) {
            Some(next) => nested_text(next, keys, from + 1),
            None => Seq::empty(),
        }
    }
}

/// The unsigned 64-bit number that a value holds: a string of decimal
/// digits, with or without a `+` before them, or a number written with
/// digits only; nothing for other values and for numbers out of range.
pub open spec fn u64_of_value(value: JsonValue) -> Option<u64> {
    match value {
        JsonValue::String(s) => match integer_literal(s@, false) {
            Some(v) => if v <= u64::MAX {
                Some(v as u64)
            } else {
                None
            },
            None => None,
        },
        JsonValue::Number(n) => if is_index_text(n@) && decimal_value(n@) <= u64::MAX {
            Some(decimal_value(n@) as u64)
        } else {
            None
        },
        _ => None,
    }
}

/// The member of the object `value` that is called `name`.
pub fn get_member<'a>(value: &'a JsonValue, name: &str) -> (out: Option<&'a JsonValue>)
    ensures
        match out {
            Some(found) => member_of(*value, name@) == Some(*found),
            None => member_of(*value, name@) is None,
        },
{
    match value {
        JsonValue::Object(members) => {
            let mut i: usize = 0;
            while i < members.len()
                invariant
                    i <= members@.len(),
                    *value == JsonValue::Object(*members),
                    member_position(members@, name@, 0) == member_position(
                        members@,
                        name@,
                        i as int,
                    ),
                decreases members@.len() - i,
            {
                if str_eq(members[i].name.as_str(), name) {
                    return Some(&members[i].value);
                }
                i += 1;
            }
            None
        },
        _ => None,
    }
}

/// The text of a string or of a number; the empty text for other values.
pub fn value_to_string(value: &JsonValue) -> (out: String)
    ensures
        out@ == text_of_value(*value),
{
    match value {
        JsonValue::String(s) => s.clone(),
        JsonValue::Number(n) => n.clone(),
        _ => String::new(),
    }
}

/// Follows `keys` from member to member and gives the text of the value
/// that is reached; the empty text where the way ends early.
pub fn get_nested_string(value: &JsonValue, keys: &[&str]) -> (out: String)
    ensures
        out@ == nested_text(*value, keys@, 0),
{
    let mut current = value;
    let mut i: usize = 0;
    while i < keys.len()
        invariant
            i <= keys@.len(),
            nested_text(*value, keys@, 0) == nested_text(*current, keys@, i as int),
        decreases keys@.len() - i,
    {
        match get_member(current, keys[i]) {
            Some(next) => {
                current = next;
            },
            None => {
                return String::new();
            },
        }
        i += 1;
    }
    value_to_string(current)
}

/// The string member `inner` of `value` where it has one, else the text of
/// `value` itself.
pub fn get_inner_or_string(value: &JsonValue) -> (out: String)
    ensures
        out@ == (match member_of(*value, "inner"@) {
            Some(JsonValue::String(inner)) => inner@,
            _ => text_of_value(*value),
        }),
{
    if let Some(JsonValue::String(inner)) = get_member(value, "inner") {
        return inner.clone();
    }
    value_to_string(value)
}

/// The unsigned 64-bit number that `value` holds.
pub fn parse_u64(value: &JsonValue) -> (out: Option<u64>)
    ensures
        out == u64_of_value(*value),
{
    let text = match value {
        JsonValue::String(s) => s,
        JsonValue::Number(n) => {
            let chars = str_chars(n.as_str());
            if chars.len() > 0 && chars[0] == '+' {
                assert(!is_decimal_digit(n@[0]));
                return None;
            }
            n
        },
        _ => {
            return None;
        },
    };
    match parse_integer(text.as_str(), IntegerType::U64) {
        Some(lit) => {
            proof {
                lemma_pow256_of_eight();
                lemma_integer_bytes(IntegerType::U64, integer_literal(text@, false)->Some_0);
            }
            Some(le_u64(&lit.bytes))
        },
        None => {
            proof {
                lemma_pow256_of_eight();
            }
            None
        },
    }
}

} // verus!
