//! The payload: a JSON array of step objects, decoded strictly.

use vstd::prelude::*;
use crate::json::{member_position, JsonMember, JsonValue};
use crate::text::{decimal_value, is_index_text, parse_index, str_eq, texts};

verus! {

/// One argument of a step.
#[derive(Debug, PartialEq)]
pub enum ArgInput {
    /// The signer of the transaction.
    Signer,
    /// A value written in the payload.
    Literal { value: JsonValue },
    /// The value that an earlier step returned at `return_index`.
    Ref { step: String, return_index: usize },
}

/// One step of the payload, as written.
#[derive(Debug, PartialEq)]
pub struct StepInput {
    pub label: String,
    pub function: String,
    pub type_arguments: Vec<String>,
    pub args: Vec<ArgInput>,
}

/// Why a payload could not be decoded.
#[derive(Debug, Clone, Copy, PartialEq, Eq, Structural)]
pub enum PayloadError {
    /// The top level is no JSON array.
    NotAnArray,
    /// The element at `index` is no step object: it is no object, a member
    /// is unknown, repeated or of the wrong type, or one is missing.
    InvalidStep { index: usize },
    /// The argument `arg` of the step at `step` is no argument object.
    InvalidArgument { step: usize, arg: usize },
}

/// Whether a member called `name` exists.
pub open spec fn has_member(members: Seq<JsonMember>, name: Seq<char>) -> bool {
    member_position(members, name, 0) < members.len()
}

/// The value of the first member called `name`.
pub open spec fn member_value(members: Seq<JsonMember>, name: Seq<char>) -> JsonValue {
    members[member_position(members, name, 0)].value
}

/// Whether no two members share a name.
pub open spec fn names_distinct(members: Seq<JsonMember>) -> bool {
    forall|i: int, j: int|
        0 <= i < j < members.len() ==> (#[trigger] members[i]).name@ != (
        #[trigger] members[j]).name@
}

/// Whether every member is called by one of the `allowed` names.
pub open spec fn names_within(members: Seq<JsonMember>, allowed: Seq<Seq<char>>) -> bool {
    forall|i: int| 0 <= i < members.len() ==> allowed.contains((#[trigger] members[i]).name@)
}

/// The texts of a list of string slices.
pub open spec fn str_texts(names: Seq<&str>) -> Seq<Seq<char>> {
    Seq::new(names.len(), |i: int| names[i]@)
}

/// Whether a string member called `name` exists.
pub open spec fn has_text(members: Seq<JsonMember>, name: Seq<char>) -> bool {
    has_member(members, name) && member_value(members, name) is String
}

/// The text of the string member called `name`.
pub open spec fn text_of(members: Seq<JsonMember>, name: Seq<char>) -> Seq<char> {
    member_value(members, name)->String_0@
}

/// Whether `value` is a JSON number that is an index: digits only, within
/// the range of `usize`.
pub open spec fn is_index_value(value: JsonValue) -> bool {
    value matches JsonValue::Number(n) && is_index_text(n@) && decimal_value(n@) <= usize::MAX
}

/// The name under which the members hold the return index: `returnIndex`
/// or its alias `return_index`, exactly one of which must be there.
pub open spec fn return_index_name(members: Seq<JsonMember>) -> Option<Seq<char>> {
    if has_member(members, "returnIndex"@) && !has_member(members, "return_index"@) {
        Some("returnIndex"@)
    } else if !has_member(members, "returnIndex"@) && has_member(members, "return_index"@) {
        Some("return_index"@)
    } else {
        None
    }
}

/// Whether the members are those of a `signer` argument.
pub open spec fn signer_members(members: Seq<JsonMember>) -> bool {
    text_of(members, "kind"@) == "signer"@ && names_within(members, seq!["kind"@])
}

/// Whether the members are those of a `literal` argument.
pub open spec fn literal_members(members: Seq<JsonMember>) -> bool {
    &&& text_of(members, "kind"@) == "literal"@
    &&& names_within(members, seq!["kind"@, "value"@])
    &&& has_member(members, "value"@)
}

/// Whether the members are those of a `ref` argument.
pub open spec fn ref_members(members: Seq<JsonMember>) -> bool {
    &&& text_of(members, "kind"@) == "ref"@
    &&& names_within(members, seq!["kind"@, "step"@, "returnIndex"@, "return_index"@])
    &&& has_text(members, "step"@)
    &&& return_index_name(members) is Some
    &&& is_index_value(member_value(members, return_index_name(members)->Some_0))
}

/// Whether `value` is an argument object: an object with distinct member
/// names whose `kind` is `signer`, `literal` or `ref` and whose members are
/// exactly those of that kind.
pub open spec fn arg_decodable(value: JsonValue) -> bool {
    value matches JsonValue::Object(members) && {
        &&& names_distinct(members@)
        &&& has_text(members@, "kind"@)
        &&& (signer_members(members@) || literal_members(members@) || ref_members(members@))
    }
}

/// Whether `arg` is what the argument object `value` says.
pub open spec fn is_arg_input(value: JsonValue, arg: ArgInput) -> bool {
    value matches JsonValue::Object(members) && {
        if signer_members(members@) {
            arg is Signer
        } else if literal_members(members@) {
            arg matches ArgInput::Literal { value: literal } && literal == member_value(
                members@,
                "value"@,
            )
        } else {
            arg matches ArgInput::Ref { step, return_index } && {
                &&& step@ == text_of(members@, "step"@)
                &&& return_index == decimal_value(
                    member_value(members@, return_index_name(members@)->Some_0)->Number_0@,
                )
            }
        }
    }
}

/// Whether every element of `items` is a JSON string.
pub open spec fn all_strings(items: Seq<JsonValue>) -> bool {
    forall|i: int| 0 <= i < items.len() ==> (#[trigger] items[i]) is String
}

/// The name under which the members hold the type arguments, if they do:
/// `typeArguments` or its alias `type_arguments`.
pub open spec fn type_arguments_name(members: Seq<JsonMember>) -> Option<Seq<char>> {
    if has_member(members, "typeArguments"@) {
        Some("typeArguments"@)
    } else if has_member(members, "type_arguments"@) {
        Some("type_arguments"@)
    } else {
        None
    }
}

/// Whether `value` has the shape of a step: an object with distinct member
/// names among `label`, `function`, `typeArguments` (or `type_arguments`,
/// not both) and `args`, with a string label, a string function, type
/// arguments that are strings where there are any, and an array of
/// arguments.
pub open spec fn step_shape(value: JsonValue) -> bool {
    value matches JsonValue::Object(members) && {
        let m = members@;
        &&& names_distinct(m)
        &&& names_within(
            m,
            seq!["label"@, "function"@, "typeArguments"@, "type_arguments"@, "args"@],
        )
        &&& has_text(m, "label"@)
        &&& has_text(m, "function"@)
        &&& !(has_member(m, "typeArguments"@) && has_member(m, "type_arguments"@))
        &&& (type_arguments_name(m) is Some ==> {
            &&& member_value(m, type_arguments_name(m)->Some_0) is Array
            &&& all_strings(member_value(m, type_arguments_name(m)->Some_0)->Array_0@)
        })
        &&& has_member(m, "args"@)
        &&& member_value(m, "args"@) is Array
    }
}

/// The argument values of a step object.
pub open spec fn step_args(value: JsonValue) -> Seq<JsonValue> {
    member_value(value->Object_0@, "args"@)->Array_0@
}

/// Whether `value` is a step object all of whose arguments are argument
/// objects.
pub open spec fn step_decodable(value: JsonValue) -> bool {
    step_shape(value) && forall|i: int|
        0 <= i < step_args(value).len() ==> arg_decodable(#[trigger] step_args(value)[i])
}

/// The type arguments that a step object holds, none where the member is
/// absent.
pub open spec fn step_type_arguments(value: JsonValue) -> Seq<Seq<char>> {
    let m = value->Object_0@;
    match type_arguments_name(m) {
        Some(name) => {
            let tags = member_value(m, name)->Array_0@;
            Seq::new(tags.len(), |i: int| tags[i]->String_0@)
        },
        None => Seq::empty(),
    }
}

/// Whether `step` is what the step object `value` says.
pub open spec fn is_step_input(value: JsonValue, step: StepInput) -> bool {
    let m = value->Object_0@;
    &&& step.label@ == text_of(m, "label"@)
    &&& step.function@ == text_of(m, "function"@)
    &&& texts(step.type_arguments@) == step_type_arguments(value)
    &&& step.args@.len() == step_args(value).len()
    &&& forall|i: int|
        0 <= i < step.args@.len() ==> is_arg_input(step_args(value)[i], #[trigger] step.args@[i])
}

fn find_member_index(members: &Vec<JsonMember>, name: &str) -> (index: usize)
    ensures
        index == member_position(members@, name@, 0),
        index <= members@.len(),
        index < members@.len() ==> members@[index as int].name@ == name@,
{
    let mut i: usize = 0;
    while i < members.len() && !str_eq(members[i].name.as_str(), name)
        invariant
            i <= members@.len(),
            member_position(members@, name@, 0) == member_position(members@, name@, i as int),
        decreases members@.len() - i,
    {
        i += 1;
    }
    i
}

fn distinct_names(members: &Vec<JsonMember>) -> (r: bool)
    ensures
        r == names_distinct(members@),
{
    let mut j: usize = 0;
    while j < members.len()
        invariant
            j <= members@.len(),
            forall|a: int, b: int|
                0 <= a < b < j ==> (#[trigger] members@[a]).name@ != (#[trigger] members@[b]).name@,
        decreases members@.len() - j,
    {
        let mut i: usize = 0;
        while i < j
            invariant
                i <= j < members@.len(),
                forall|a: int|
                    0 <= a < i ==> (#[trigger] members@[a]).name@ != members@[j as int].name@,
            decreases j - i,
        {
            if str_eq(members[i].name.as_str(), members[j].name.as_str()) {
                return false;
            }
            i += 1;
        }
        j += 1;
    }
    true
}

fn listed(name: &str, allowed: &Vec<&str>) -> (r: bool)
    ensures
        r == str_texts(allowed@).contains(name@),
{
    let mut i: usize = 0;
    while i < allowed.len()
        invariant
            i <= allowed@.len(),
            forall|j: int| 0 <= j < i ==> str_texts(allowed@)[j] != name@,
        decreases allowed@.len() - i,
    {
        if str_eq(allowed[i], name) {
            assert(str_texts(allowed@)[i as int] == name@);
            return true;
        }
        i += 1;
    }
    false
}

fn only_names(members: &Vec<JsonMember>, allowed: &Vec<&str>) -> (r: bool)
    ensures
        r == names_within(members@, str_texts(allowed@)),
{
    let mut i: usize = 0;
    while i < members.len()
        invariant
            i <= members@.len(),
            forall|j: int|
                0 <= j < i ==> str_texts(allowed@).contains((#[trigger] members@[j]).name@),
        decreases members@.len() - i,
    {
        if !listed(members[i].name.as_str(), allowed) {
            return false;
        }
        i += 1;
    }
    true
}

/// The three kinds of argument have different names.
proof fn lemma_kind_names_differ()
    ensures
        "signer"@ != "literal"@,
        "signer"@ != "ref"@,
        "literal"@ != "ref"@,
{
    reveal_strlit("signer");
    reveal_strlit("literal");
    reveal_strlit("ref");
    assert("signer"@.len() == 6);
    assert("literal"@.len() == 7);
    assert("ref"@.len() == 3);
}

/// Decodes an argument object: `{"kind": "signer"}`, `{"kind": "literal",
/// "value": ...}` or `{"kind": "ref", "step": ..., "returnIndex": ...}`
/// (`return_index` is accepted for `returnIndex`). Any other member, a
/// repeated or missing one, or one of the wrong type makes it fail.
pub fn parse_arg(value: JsonValue) -> (out: Option<ArgInput>)
    ensures
        match out {
            Some(arg) => arg_decodable(value) && is_arg_input(value, arg),
            None => !arg_decodable(value),
        },
{
    let mut members = match value {
        JsonValue::Object(members) => members,
        _ => {
            return None;
        },
    };
    let ghost m = members@;
    if !distinct_names(&members) {
        return None;
    }
    let k = find_member_index(&members, "kind");
    if k >= members.len() {
        return None;
    }
    proof {
        lemma_kind_names_differ();
    }
    let kind: u8 = match &members[k].value {
        JsonValue::String(s) => {
            if str_eq(s.as_str(), "signer") {
                0
            } else if str_eq(s.as_str(), "literal") {
                1
            } else if str_eq(s.as_str(), "ref") {
                2
            } else {
                return None;
            }
        },
        _ => {
            return None;
        },
    };
    if kind == 0 {
        let allowed: Vec<&str> = vec!["kind"];
        assert(str_texts(allowed@) =~= seq!["kind"@]);
        if only_names(&members, &allowed) {
            Some(ArgInput::Signer)
        } else {
            None
        }
    } else if kind == 1 {
        let allowed: Vec<&str> = vec!["kind", "value"];
        assert(str_texts(allowed@) =~= seq!["kind"@, "value"@]);
        if !only_names(&members, &allowed) {
            return None;
        }
        let v = find_member_index(&members, "value");
        if v >= members.len() {
            return None;
        }
        let member = members.remove(v);
        Some(ArgInput::Literal { value: member.value })
    } else {
        let allowed: Vec<&str> = vec!["kind", "step", "returnIndex", "return_index"];
        assert(str_texts(allowed@) =~= seq!["kind"@, "step"@, "returnIndex"@, "return_index"@]);
        if !only_names(&members, &allowed) {
            return None;
        }
        let s = find_member_index(&members, "step");
        if s >= members.len() {
            return None;
        }
        let step = match &members[s].value {
            JsonValue::String(text) => text.clone(),
            _ => {
                return None;
            },
        };
        let camel = find_member_index(&members, "returnIndex");
        let snake = find_member_index(&members, "return_index");
        let r = if camel < members.len() && snake >= members.len() {
            camel
        } else if camel >= members.len() && snake < members.len() {
            snake
        } else {
            return None;
        };
        let return_index = match &members[r].value {
            JsonValue::Number(n) => match parse_index(n.as_str()) {
                Some(index) => index,
                None => {
                    return None;
                },
            },
            _ => {
                return None;
            },
        };
        Some(ArgInput::Ref { step, return_index })
    }
}

/// Whether `at` is the position of the first element of `items` that is
/// no argument object.
pub open spec fn first_undecodable(items: Seq<JsonValue>, at: int) -> bool {
    &&& 0 <= at < items.len()
    &&& !arg_decodable(items[at])
    &&& forall|j: int| 0 <= j < at ==> arg_decodable(#[trigger] items[j])
}

/// What decoding the step object `value`, the element `index` of the
/// payload, must give.
pub open spec fn step_decoding(
    value: JsonValue,
    index: usize,
    out: Result<StepInput, PayloadError>,
) -> bool {
    match out {
        Ok(step) => step_decodable(value) && is_step_input(value, step),
        Err(PayloadError::InvalidStep { index: at }) => at == index && !step_shape(value),
        Err(PayloadError::InvalidArgument { step, arg }) => step == index && step_shape(value)
            && first_undecodable(step_args(value), arg as int),
        Err(PayloadError::NotAnArray) => false,
    }
}

fn string_items(tags: &Vec<JsonValue>) -> (out: Option<Vec<String>>)
    ensures
        match out {
            Some(found) => all_strings(tags@) && texts(found@) == Seq::new(
                tags@.len(),
                |i: int| tags@[i]->String_0@,
            ),
            None => !all_strings(tags@),
        },
{
    let mut found: Vec<String> = Vec::new();
    let mut i: usize = 0;
    while i < tags.len()
        invariant
            i <= tags@.len(),
            found@.len() == i,
            forall|j: int| 0 <= j < i ==> (#[trigger] tags@[j]) is String,
            forall|j: int| 0 <= j < i ==> (#[trigger] found@[j])@ == tags@[j]->String_0@,
        decreases tags@.len() - i,
    {
        match &tags[i] {
            JsonValue::String(text) => {
                found.push(text.clone());
            },
            _ => {
                return None;
            },
        }
        i += 1;
    }
    proof {
        assert(texts(found@) =~= Seq::new(tags@.len(), |i: int| tags@[i]->String_0@));
    }
    Some(found)
}

/// Decodes the step object `value`, the element `index` of the payload.
pub fn parse_step(value: JsonValue, index: usize) -> (out: Result<StepInput, PayloadError>)
    ensures
        step_decoding(value, index, out),
{
    let shape = PayloadError::InvalidStep { index };
    let mut members = match value {
        JsonValue::Object(members) => members,
        _ => {
            return Err(shape);
        },
    };
    let ghost m = members@;
    if !distinct_names(&members) {
        return Err(shape);
    }
    let allowed: Vec<&str> = vec!["label", "function", "typeArguments", "type_arguments", "args"];
    assert(str_texts(allowed@) =~= seq![
        "label"@,
        "function"@,
        "typeArguments"@,
        "type_arguments"@,
        "args"@,
    ]);
    if !only_names(&members, &allowed) {
        return Err(shape);
    }
    let l = find_member_index(&members, "label");
    if l >= members.len() {
        return Err(shape);
    }
    let label = match &members[l].value {
        JsonValue::String(text) => text.clone(),
        _ => {
            return Err(shape);
        },
    };
    let f = find_member_index(&members, "function");
    if f >= members.len() {
        return Err(shape);
    }
    let function = match &members[f].value {
        JsonValue::String(text) => text.clone(),
        _ => {
            return Err(shape);
        },
    };
    let camel = find_member_index(&members, "typeArguments");
    let snake = find_member_index(&members, "type_arguments");
    if camel < members.len() && snake < members.len() {
        return Err(shape);
    }
    let type_arguments: Vec<String> = if camel < members.len() || snake < members.len() {
        let t = if camel < members.len() {
            camel
        } else {
            snake
        };
        match &members[t].value {
            JsonValue::Array(tags) => match string_items(tags) {
                Some(found) => found,
                None => {
                    return Err(shape);
                },
            },
            _ => {
                return Err(shape);
            },
        }
    } else {
        let none: Vec<String> = Vec::new();
        assert(texts(none@) =~= Seq::<Seq<char>>::empty());
        none
    };
    let a = find_member_index(&members, "args");
    if a >= members.len() {
        return Err(shape);
    }
    match &members[a].value {
        JsonValue::Array(_) => {},
        _ => {
            return Err(shape);
        },
    }
    assert(step_shape(value));
    let member = members.remove(a);
    let items = match member.value {
        JsonValue::Array(items) => items,
        _ => {
            return Err(shape);
        },
    };
    let ghost all = items@;
    assert(all == step_args(value));
    assert(all.len() == items.len());
    let mut args: Vec<ArgInput> = Vec::new();
    let mut position: usize = 0;
    for item in it: items
        invariant
            it.seq() == all,
            all.len() <= usize::MAX,
            all == step_args(value),
            step_shape(value),
            position == it.index(),
            args@.len() == it.index(),
            forall|j: int| 0 <= j < it.index() ==> arg_decodable(#[trigger] all[j]),
            forall|j: int| 0 <= j < it.index() ==> is_arg_input(all[j], #[trigger] args@[j]),
    {
        match parse_arg(item) {
            Some(arg) => {
                args.push(arg);
            },
            None => {
                return Err(PayloadError::InvalidArgument { step: index, arg: position });
            },
        }
        position += 1;
    }
    Ok(StepInput { label, function, type_arguments, args })
}

/// What decoding the payload `raw` must give: every step in order when
/// `raw` is an array of step objects; else the first element that is no
/// step object, and within a step of the right shape the first argument
/// that is no argument object.
pub open spec fn payload_decoding(
    raw: JsonValue,
    out: Result<Vec<StepInput>, PayloadError>,
) -> bool {
    match raw {
        JsonValue::Array(items) => match out {
            Ok(steps) => {
                &&& steps@.len() == items@.len()
                &&& forall|i: int|
                    0 <= i < items@.len() ==> step_decodable(#[trigger] items@[i])
                &&& forall|i: int|
                    0 <= i < items@.len() ==> is_step_input(items@[i], #[trigger] steps@[i])
            },
            Err(PayloadError::InvalidStep { index }) => {
                &&& index < items@.len()
                &&& forall|j: int| 0 <= j < index ==> step_decodable(#[trigger] items@[j])
                &&& !step_shape(items@[index as int])
            },
            Err(PayloadError::InvalidArgument { step, arg }) => {
                &&& step < items@.len()
                &&& forall|j: int| 0 <= j < step ==> step_decodable(#[trigger] items@[j])
                &&& step_shape(items@[step as int])
                &&& first_undecodable(step_args(items@[step as int]), arg as int)
            },
            Err(PayloadError::NotAnArray) => false,
        },
        _ => out == Err::<Vec<StepInput>, PayloadError>(PayloadError::NotAnArray),
    }
}

/// Decodes a payload: a JSON array of step objects. Anything else at the
/// top level is refused, and so is every element that is no step object.
pub fn parse_steps_payload(raw: JsonValue) -> (out: Result<Vec<StepInput>, PayloadError>)
    ensures
        payload_decoding(raw, out),
{
    let items = match raw {
        JsonValue::Array(items) => items,
        _ => {
            return Err(PayloadError::NotAnArray);
        },
    };
    let ghost all = items@;
    assert(all.len() == items.len());
    let mut steps: Vec<StepInput> = Vec::new();
    let mut position: usize = 0;
    for item in it: items
        invariant
            it.seq() == all,
            all.len() <= usize::MAX,
            raw matches JsonValue::Array(elements) && elements@ == all,
            position == it.index(),
            steps@.len() == it.index(),
            forall|j: int| 0 <= j < it.index() ==> step_decodable(#[trigger] all[j]),
            forall|j: int| 0 <= j < it.index() ==> is_step_input(all[j], #[trigger] steps@[j]),
    {
        match parse_step(item, position) {
            Ok(step) => {
                steps.push(step);
            },
            Err(e) => {
                return Err(e);
            },
        }
        position += 1;
    }
    Ok(steps)
}

} // verus!
