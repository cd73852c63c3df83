//! The call wiring: for every step the arguments that the composition
//! engine is given, the returns that later steps may use, and the script
//! payload that is emitted at the end.

use vstd::prelude::*;
use vstd::string::StringExecFns;
use crate::abi::{resolve_function_params, resolved_parameters, AbiError, AbiFault, ModuleInfo};
use crate::function_id::{module_text, ModuleKey, ModuleKeyView};
use crate::hexcodec::{
    hex_decoded, hex_encode, hex_encoded, is_hex_text, lemma_hex_round_trip,
};
use crate::json::{JsonMember, JsonValue};
use crate::literal::{
    hex_prefix, is_payload, literal_reading, payload_encoding, read_literal, vm_encoding,
    LiteralError, LiteralFault, PayloadView,
};
use crate::modules::same_module;
use crate::payload::ArgInput;
use crate::resolve::ResolvedStep;
use crate::text::{
    chars_are, clone_texts, str_chars, str_eq, strip_whitespace, texts, without_whitespace,
};

verus! {

/// One argument of a call, as the engine is to be given it.
#[derive(Debug, Clone, PartialEq, Eq)]
pub enum CallInput {
    /// The signer of the transaction.
    Signer,
    /// A literal in its binary form.
    Bytes(Vec<u8>),
    /// The value that the step `step` returned at `return_index`.
    Returned { step: String, return_index: usize },
}

/// The mathematical content of a [`CallInput`].
pub enum CallInputView {
    Signer,
    Bytes(Seq<u8>),
    Returned { step: Seq<char>, return_index: int },
}

impl View for CallInput {
    type V = CallInputView;

    open spec fn view(&self) -> CallInputView {
        match self {
            CallInput::Signer => CallInputView::Signer,
            CallInput::Bytes(bytes) => CallInputView::Bytes(bytes@),
            CallInput::Returned { step, return_index } => CallInputView::Returned {
                step: step@,
                return_index: *return_index as int,
            },
        }
    }
}

/// One call for the engine, with the payload form of its literals.
#[derive(Debug, PartialEq)]
pub struct CallPlan {
    pub label: String,
    pub module: String,
    pub function: String,
    pub type_arguments: Vec<String>,
    pub arguments: Vec<CallInput>,
    pub payload_arguments: Vec<JsonValue>,
}

/// A module that was fetched and handed to the engine.
#[derive(Debug, Clone, PartialEq, Eq)]
pub struct LoadedModule {
    pub key: ModuleKey,
    pub info: ModuleInfo,
}

/// How many values the call of a step returned.
#[derive(Debug, Clone, PartialEq, Eq)]
pub struct StepReturns {
    pub label: String,
    pub count: usize,
}

/// The state of a composition: the modules loaded, the returns of the
/// calls made so far and the payload form of their literals. Where a module
/// or a label was recorded twice, the last record counts.
#[derive(Debug, PartialEq)]
pub struct Composition {
    pub modules: Vec<LoadedModule>,
    pub recorded: Vec<StepReturns>,
    pub payload_arguments: Vec<JsonValue>,
}

/// Why a call could not be planned or a script payload not be emitted.
#[derive(Debug, Clone, PartialEq, Eq)]
pub enum ComposeError {
    /// The module of the function was not loaded.
    ModuleNotLoaded { module: String },
    /// The parameter types of the function could not be resolved.
    Abi(AbiError),
    /// The function takes `expected` arguments, the step gives `provided`.
    ArgumentCountMismatch { label: String, expected_count: usize, provided_count: usize },
    /// A signer is given where the parameter `expected` is no `&signer`.
    SignerMismatch { label: String, arg_index: usize, expected: String },
    /// A literal cannot be written for the parameter `expected`.
    InvalidLiteral { label: String, arg_index: usize, expected: String, error: LiteralError },
    /// A reference names a step that made no call yet.
    UnknownStep { label: String, arg_index: usize, reference: String },
    /// A reference asks for more values than the step returned.
    ReturnIndexOutOfRange {
        label: String,
        arg_index: usize,
        reference: String,
        return_index: usize,
        available: usize,
    },
    /// The script takes `script` arguments, the payload holds `payload`.
    ScriptArgumentMismatch { script: usize, payload: usize },
    /// The engine refused the call of the step `label`.
    CallRejected { label: String, function: String, reason: String },
    /// The bytes that the engine emitted are no script.
    UndecodableScript,
}

/// The mathematical content of a [`ComposeError`].
pub enum ComposeFault {
    ModuleNotLoaded { module: Seq<char> },
    Abi(AbiFault),
    ArgumentCountMismatch { label: Seq<char>, expected_count: int, provided_count: int },
    SignerMismatch { label: Seq<char>, arg_index: int, expected: Seq<char> },
    InvalidLiteral { label: Seq<char>, arg_index: int, expected: Seq<char>, error: LiteralFault },
    UnknownStep { label: Seq<char>, arg_index: int, reference: Seq<char> },
    ReturnIndexOutOfRange {
        label: Seq<char>,
        arg_index: int,
        reference: Seq<char>,
        return_index: int,
        available: int,
    },
    ScriptArgumentMismatch { script: int, payload: int },
    CallRejected { label: Seq<char>, function: Seq<char>, reason: Seq<char> },
    UndecodableScript,
}

impl View for ComposeError {
    type V = ComposeFault;

    open spec fn view(&self) -> ComposeFault {
        match self {
            ComposeError::ModuleNotLoaded { module } => ComposeFault::ModuleNotLoaded {
                module: module@,
            },
            ComposeError::Abi(e) => ComposeFault::Abi(e@),
            ComposeError::ArgumentCountMismatch { label, expected_count, provided_count } => {
                ComposeFault::ArgumentCountMismatch {
                    label: label@,
                    expected_count: *expected_count as int,
                    provided_count: *provided_count as int,
                }
            },
            ComposeError::SignerMismatch { label, arg_index, expected } => {
                ComposeFault::SignerMismatch {
                    label: label@,
                    arg_index: *arg_index as int,
                    expected: expected@,
                }
            },
            ComposeError::InvalidLiteral { label, arg_index, expected, error } => {
                ComposeFault::InvalidLiteral {
                    label: label@,
                    arg_index: *arg_index as int,
                    expected: expected@,
                    error: error@,
                }
            },
            ComposeError::UnknownStep { label, arg_index, reference } => {
                ComposeFault::UnknownStep {
                    label: label@,
                    arg_index: *arg_index as int,
                    reference: reference@,
                }
            },
            ComposeError::ReturnIndexOutOfRange {
                label,
                arg_index,
                reference,
                return_index,
                available,
            } => ComposeFault::ReturnIndexOutOfRange {
                label: label@,
                arg_index: *arg_index as int,
                reference: reference@,
                return_index: *return_index as int,
                available: *available as int,
            },
            ComposeError::ScriptArgumentMismatch { script, payload } => {
                ComposeFault::ScriptArgumentMismatch {
                    script: *script as int,
                    payload: *payload as int,
                }
            },
            ComposeError::CallRejected { label, function, reason } => {
                ComposeFault::CallRejected {
                    label: label@,
                    function: function@,
                    reason: reason@,
                }
            },
            ComposeError::UndecodableScript => ComposeFault::UndecodableScript,
        }
    }
}

/// The position of the last record of the module `key` among the first
/// `upto`, or -1 when there is none.
pub open spec fn loaded_position(modules: Seq<LoadedModule>, key: ModuleKeyView, upto: int) -> int
    decreases upto,
{
    if upto <= 0 || upto > modules.len() {
        -1
    } else if modules[upto - 1].key@ == key {
        upto - 1
    } else {
        loaded_position(modules, key, upto - 1)
    }
}

/// The position of the last record of the step `label` among the first
/// `upto`, or -1 when there is none.
pub open spec fn returns_position(recorded: Seq<StepReturns>, label: Seq<char>, upto: int) -> int
    decreases upto,
{
    if upto <= 0 || upto > recorded.len() {
        -1
    } else if recorded[upto - 1].label@ == label {
        upto - 1
    } else {
        returns_position(recorded, label, upto - 1)
    }
}

/// What the engine is given for the argument `arg` at position `i` of the
/// step `label`, whose parameter type is `param`: the signer for a signer
/// argument where the parameter is `&signer`; the binary form of a literal;
/// for a reference, the named return of the named step, which must have
/// made its call and returned that many values.
pub open spec fn argument_input(
    label: Seq<char>,
    i: int,
    param: Seq<char>,
    arg: ArgInput,
    recorded: Seq<StepReturns>,
) -> Result<CallInputView, ComposeFault> {
    match arg {
        ArgInput::Signer => if without_whitespace(param) == "&signer"@ {
            Ok(CallInputView::Signer)
        } else {
            Err(ComposeFault::SignerMismatch { label, arg_index: i, expected: param })
        },
        ArgInput::Literal { value } => match literal_reading(param, value) {
            Err(fault) => Err(
                ComposeFault::InvalidLiteral { label, arg_index: i, expected: param, error: fault },
            ),
            Ok(meaning) => match vm_encoding(meaning) {
                None => Err(
                    ComposeFault::InvalidLiteral {
                        label,
                        arg_index: i,
                        expected: param,
                        error: LiteralFault::NotSerializable,
                    },
                ),
                Some(bytes) => Ok(CallInputView::Bytes(bytes)),
            },
        },
        ArgInput::Ref { step, return_index } => {
            let at = returns_position(recorded, step@, recorded.len() as int);
            if at < 0 {
                Err(ComposeFault::UnknownStep { label, arg_index: i, reference: step@ })
            } else if return_index >= recorded[at].count {
                Err(
                    ComposeFault::ReturnIndexOutOfRange {
                        label,
                        arg_index: i,
                        reference: step@,
                        return_index: return_index as int,
                        available: recorded[at].count as int,
                    },
                )
            } else {
                Ok(CallInputView::Returned { step: step@, return_index: return_index as int })
            }
        },
    }
}

/// The payload form of the argument, which only a literal has.
pub open spec fn argument_payload(param: Seq<char>, arg: ArgInput) -> Option<PayloadView> {
    match arg {
        ArgInput::Literal { value } => match literal_reading(param, value) {
            Ok(meaning) => Some(payload_encoding(meaning)),
            Err(_) => None,
        },
        _ => None,
    }
}

/// The position of the first argument at or after `from` for which the
/// engine can be given nothing, or the number of arguments.
pub open spec fn first_failing_argument(
    label: Seq<char>,
    params: Seq<Seq<char>>,
    args: Seq<ArgInput>,
    recorded: Seq<StepReturns>,
    from: int,
) -> int
    decreases args.len() - from,
{
    if 0 <= from < args.len() && argument_input(
        label,
        from,
        params[from],
        args[from],
        recorded,
    ) is Ok {
        first_failing_argument(label, params, args, recorded, from + 1)
    } else {
        from
    }
}

/// The payload forms of the literals among the first `upto` arguments, in
/// order.
pub open spec fn literal_payloads(params: Seq<Seq<char>>, args: Seq<ArgInput>, upto: nat) -> Seq<
    PayloadView,
>
    decreases upto,
{
    if upto == 0 || upto > args.len() {
        Seq::empty()
    } else {
        let before = literal_payloads(params, args, (upto - 1) as nat);
        match argument_payload(params[upto - 1], args[upto - 1]) {
            Some(payload) => before.push(payload),
            None => before,
        }
    }
}

/// Whether `plan` is the call of `step` with the parameter types `params`.
pub open spec fn is_plan(
    plan: CallPlan,
    step: ResolvedStep,
    params: Seq<Seq<char>>,
    recorded: Seq<StepReturns>,
) -> bool {
    let payloads = literal_payloads(params, step.args@, step.args@.len());
    &&& plan.label@ == step.label@
    &&& plan.module@ == module_text(step.function_id.module@)
    &&& plan.function@ == step.function_id.function@
    &&& texts(plan.type_arguments@) == texts(step.type_arguments@)
    &&& plan.arguments@.len() == step.args@.len()
    &&& forall|i: int|
        0 <= i < step.args@.len() ==> argument_input(
            step.label@,
            i,
            params[i],
            step.args@[i],
            recorded,
        ) == Ok::<CallInputView, ComposeFault>((#[trigger] plan.arguments@[i])@)
    &&& plan.payload_arguments@.len() == payloads.len()
    &&& forall|j: int|
        0 <= j < payloads.len() ==> is_payload(#[trigger] plan.payload_arguments@[j], payloads[j])
}

/// What planning the call of `step` must give: an error when the module of
/// the function is not loaded, when its parameters cannot be resolved, when
/// their number is not the number of arguments, and for the first argument
/// for which the engine can be given nothing; else the plan.
pub open spec fn call_planning(
    composition: Composition,
    step: ResolvedStep,
    out: Result<CallPlan, ComposeError>,
) -> bool {
    let at = loaded_position(
        composition.modules@,
        step.function_id.module@,
        composition.modules@.len() as int,
    );
    if at < 0 {
        out matches Err(e) && e@ == ComposeFault::ModuleNotLoaded {
            module: module_text(step.function_id.module@),
        }
    } else {
        match resolved_parameters(step, composition.modules@[at].info) {
            Err(fault) => out matches Err(e) && e@ == ComposeFault::Abi(fault),
            Ok(params) => if params.len() != step.args@.len() {
                out matches Err(e) && e@ == ComposeFault::ArgumentCountMismatch {
                    label: step.label@,
                    expected_count: params.len() as int,
                    provided_count: step.args@.len() as int,
                }
            } else {
                let bad = first_failing_argument(
                    step.label@,
                    params,
                    step.args@,
                    composition.recorded@,
                    0,
                );
                if bad < step.args@.len() {
                    out matches Err(e) && argument_input(
                        step.label@,
                        bad,
                        params[bad],
                        step.args@[bad],
                        composition.recorded@,
                    ) == Err::<CallInputView, ComposeFault>(e@)
                } else {
                    out matches Ok(plan) && is_plan(plan, step, params, composition.recorded@)
                }
            },
        }
    }
}

fn find_loaded(modules: &Vec<LoadedModule>, key: &ModuleKey) -> (at: Option<usize>)
    ensures
        match at {
            Some(i) => i < modules@.len() && i == loaded_position(
                modules@,
                key@,
                modules@.len() as int,
            ),
            None => loaded_position(modules@, key@, modules@.len() as int) < 0,
        },
{
    let mut i: usize = modules.len();
    while i > 0
        invariant
            i <= modules@.len(),
            loaded_position(modules@, key@, modules@.len() as int) == loaded_position(
                modules@,
                key@,
                i as int,
            ),
        decreases i,
    {
        if same_module(&modules[i - 1].key, key) {
            return Some(i - 1);
        }
        i -= 1;
    }
    None
}

fn find_returns(recorded: &Vec<StepReturns>, label: &str) -> (at: Option<usize>)
    ensures
        match at {
            Some(i) => i < recorded@.len() && i == returns_position(
                recorded@,
                label@,
                recorded@.len() as int,
            ),
            None => returns_position(recorded@, label@, recorded@.len() as int) < 0,
        },
{
    let mut i: usize = recorded.len();
    while i > 0
        invariant
            i <= recorded@.len(),
            returns_position(recorded@, label@, recorded@.len() as int) == returns_position(
                recorded@,
                label@,
                i as int,
            ),
        decreases i,
    {
        if str_eq(recorded[i - 1].label.as_str(), label) {
            return Some(i - 1);
        }
        i -= 1;
    }
    None
}

fn is_signer_parameter(param: &str) -> (r: bool)
    ensures
        r == (without_whitespace(param@) == "&signer"@),
{
    let chars = str_chars(param);
    let name = strip_whitespace(&chars);
    chars_are(&name, "&signer")
}

/// What the engine is given for one argument, and the payload form of the
/// argument where it is a literal.
pub fn plan_argument(
    label: &str,
    index: usize,
    param: &str,
    arg: &ArgInput,
    recorded: &Vec<StepReturns>,
) -> (out: Result<(CallInput, Option<JsonValue>), ComposeError>)
    ensures
        match argument_input(label@, index as int, param@, *arg, recorded@) {
            Ok(input) => out matches Ok(planned) && planned.0@ == input && match argument_payload(
                param@,
                *arg,
            ) {
                Some(payload) => planned.1 matches Some(written) && is_payload(written, payload),
                None => planned.1 is None,
            },
            Err(fault) => out matches Err(e) && e@ == fault,
        },
{
    match arg {
        ArgInput::Signer => {
            if is_signer_parameter(param) {
                Ok((CallInput::Signer, None))
            } else {
                Err(
                    ComposeError::SignerMismatch {
                        label: label.to_owned(),
                        arg_index: index,
                        expected: param.to_owned(),
                    },
                )
            }
        },
        ArgInput::Literal { value } => {
            let literal = match read_literal(param, value) {
                Ok(literal) => literal,
                Err(error) => {
                    return Err(
                        ComposeError::InvalidLiteral {
                            label: label.to_owned(),
                            arg_index: index,
                            expected: param.to_owned(),
                            error,
                        },
                    );
                },
            };
            let ghost meaning = literal_reading(param@, *value)->Ok_0;
            assert(literal.represents(meaning));
            let bytes = match literal.vm_bytes() {
                Ok(bytes) => bytes,
                Err(error) => {
                    return Err(
                        ComposeError::InvalidLiteral {
                            label: label.to_owned(),
                            arg_index: index,
                            expected: param.to_owned(),
                            error,
                        },
                    );
                },
            };
            let payload = literal.payload_value();
            Ok((CallInput::Bytes(bytes), Some(payload)))
        },
        ArgInput::Ref { step, return_index } => {
            let at = match find_returns(recorded, step.as_str()) {
                Some(at) => at,
                None => {
                    return Err(
                        ComposeError::UnknownStep {
                            label: label.to_owned(),
                            arg_index: index,
                            reference: step.clone(),
                        },
                    );
                },
            };
            if *return_index >= recorded[at].count {
                return Err(
                    ComposeError::ReturnIndexOutOfRange {
                        label: label.to_owned(),
                        arg_index: index,
                        reference: step.clone(),
                        return_index: *return_index,
                        available: recorded[at].count,
                    },
                );
            }
            Ok((CallInput::Returned { step: step.clone(), return_index: *return_index }, None))
        },
    }
}

impl Composition {
    /// A composition with no module loaded and no call made.
    pub fn new() -> (out: Composition)
        ensures
            out.modules@.len() == 0,
            out.recorded@.len() == 0,
            out.payload_arguments@.len() == 0,
    {
        Composition { modules: Vec::new(), recorded: Vec::new(), payload_arguments: Vec::new() }
    }

    /// Records that the module `key` was fetched and handed to the engine.
    pub fn add_module(&mut self, key: ModuleKey, info: ModuleInfo)
        ensures
            final(self).modules@ == old(self).modules@.push(LoadedModule { key, info }),
            final(self).recorded == old(self).recorded,
            final(self).payload_arguments == old(self).payload_arguments,
    {
        self.modules.push(LoadedModule { key, info });
    }

    /// Plans the call of `step`: resolves the parameter types of its
    /// function, checks that there are as many as arguments, and says for
    /// each argument what the engine is to be given.
    #[verifier::loop_isolation(false)]
    pub fn plan_call(&self, step: &ResolvedStep) -> (out: Result<CallPlan, ComposeError>)
        ensures
            call_planning(*self, *step, out),
    {
        let at = match find_loaded(&self.modules, &step.function_id.module) {
            Some(at) => at,
            None => {
                return Err(
                    ComposeError::ModuleNotLoaded { module: step.function_id.module_string() },
                );
            },
        };
        let params = match resolve_function_params(step, &self.modules[at].info) {
            Ok(params) => params,
            Err(e) => {
                return Err(ComposeError::Abi(e));
            },
        };
        if params.len() != step.args.len() {
            return Err(
                ComposeError::ArgumentCountMismatch {
                    label: step.label.clone(),
                    expected_count: params.len(),
                    provided_count: step.args.len(),
                },
            );
        }
        let ghost expected = texts(params@);
        let mut arguments: Vec<CallInput> = Vec::new();
        let mut payload_arguments: Vec<JsonValue> = Vec::new();
        let mut i: usize = 0;
        while i < step.args.len()
            invariant
                i <= step.args@.len(),
                arguments@.len() == i,
                first_failing_argument(step.label@, expected, step.args@, self.recorded@, 0)
                    == first_failing_argument(
                    step.label@,
                    expected,
                    step.args@,
                    self.recorded@,
                    i as int,
                ),
                forall|j: int|
                    0 <= j < i ==> argument_input(
                        step.label@,
                        j,
                        expected[j],
                        step.args@[j],
                        self.recorded@,
                    ) == Ok::<CallInputView, ComposeFault>((#[trigger] arguments@[j])@),
                payload_arguments@.len() == literal_payloads(expected, step.args@, i as nat).len(),
                forall|j: int|
                    0 <= j < payload_arguments@.len() ==> is_payload(
                        #[trigger] payload_arguments@[j],
                        literal_payloads(expected, step.args@, i as nat)[j],
                    ),
            decreases step.args@.len() - i,
        {
            assert(expected[i as int] == params@[i as int]@);
            match plan_argument(
                step.label.as_str(),
                i,
                params[i].as_str(),
                &step.args[i],
                &self.recorded,
            ) {
                Ok((input, payload)) => {
                    arguments.push(input);
                    if let Some(written) = payload {
                        payload_arguments.push(written);
                    }
                },
                Err(e) => {
                    return Err(e);
                },
            }
            i += 1;
        }
        let plan = CallPlan {
            label: step.label.clone(),
            module: step.function_id.module_string(),
            function: step.function_id.function.clone(),
            type_arguments: clone_texts(&step.type_arguments),
            arguments,
            payload_arguments,
        };
        Ok(plan)
    }

    /// Records the call that was planned for the step `label`: how many
    /// values it returned, and the payload form of its literals.
    pub fn record_call(&mut self, label: String, payload_arguments: Vec<JsonValue>, returned: usize)
        ensures
            final(self).modules == old(self).modules,
            final(self).recorded@ == old(self).recorded@.push(
                StepReturns { label, count: returned },
            ),
            final(self).payload_arguments@ == old(self).payload_arguments@ + payload_arguments@,
    {
        let mut payload_arguments = payload_arguments;
        self.recorded.push(StepReturns { label, count: returned });
        self.payload_arguments.append(&mut payload_arguments);
    }
}

/// The text of a script in raw mode: `0x` and the hexadecimal digits of
/// its bytes.
pub open spec fn script_hex(script: Seq<u8>) -> Seq<char> {
    hex_prefix() + hex_encoded(script)
}

/// Whether `member` is called `name` and holds the string `text`.
pub open spec fn is_text_member(member: JsonMember, name: Seq<char>, text: Seq<char>) -> bool {
    member.name@ == name && member.value is String && member.value->String_0@ == text
}

/// Whether `value` is the array of the strings `items`.
pub open spec fn is_text_array(value: JsonValue, items: Seq<Seq<char>>) -> bool {
    &&& value is Array
    &&& value->Array_0@.len() == items.len()
    &&& forall|i: int|
        0 <= i < items.len() ==> (#[trigger] value->Array_0@[i]) is String
            && value->Array_0@[i]->String_0@ == items[i]
}

/// Whether `value` is the script payload of the script `code` with the
/// given type arguments and arguments: the object `{"type":
/// "script_payload", "code": {"bytecode": <hex>}, "type_arguments": [...],
/// "arguments": [...]}`.
pub open spec fn is_script_payload(
    value: JsonValue,
    code: Seq<u8>,
    type_arguments: Seq<Seq<char>>,
    arguments: Seq<JsonValue>,
) -> bool {
    &&& value is Object
    &&& value->Object_0@.len() == 4
    &&& is_text_member(value->Object_0@[0], "type"@, "script_payload"@)
    &&& value->Object_0@[1].name@ == "code"@
    &&& value->Object_0@[1].value is Object
    &&& value->Object_0@[1].value->Object_0@.len() == 1
    &&& is_text_member(value->Object_0@[1].value->Object_0@[0], "bytecode"@, script_hex(code))
    &&& value->Object_0@[2].name@ == "type_arguments"@
    &&& is_text_array(value->Object_0@[2].value, type_arguments)
    &&& value->Object_0@[3].name@ == "arguments"@
    &&& value->Object_0@[3].value is Array
    &&& value->Object_0@[3].value->Array_0@ == arguments
}

/// The text of `script` in raw mode: `0x` and its hexadecimal digits.
pub fn raw_script_output(script: &Vec<u8>) -> (out: String)
    ensures
        out@ == script_hex(script@),
{
    let digits = hex_encode(script);
    let mut out = "0x".to_owned();
    out.append(digits.as_str());
    proof {
        reveal_strlit("0x");
        assert("0x"@ =~= hex_prefix());
    }
    out
}

fn text_array(items: Vec<String>) -> (out: JsonValue)
    ensures
        is_text_array(out, texts(items@)),
{
    let ghost all = items@;
    let mut values: Vec<JsonValue> = Vec::new();
    for item in it: items
        invariant
            it.seq() == all,
            values@.len() == it.index(),
            forall|j: int|
                0 <= j < it.index() ==> (#[trigger] values@[j]) is String
                    && values@[j]->String_0@ == all[j]@,
    {
        values.push(JsonValue::String(item));
    }
    JsonValue::Array(values)
}

impl Composition {
    /// The script payload of the finished composition. `code` and
    /// `type_arguments` are those of the script that the engine emitted;
    /// `script_arguments` is the number of arguments that the script
    /// takes, which must be the number of literals that were recorded.
    pub fn into_script_payload(
        self,
        code: &Vec<u8>,
        type_arguments: Vec<String>,
        script_arguments: usize,
    ) -> (out: Result<JsonValue, ComposeError>)
        ensures
            if script_arguments == self.payload_arguments@.len() {
                out matches Ok(value) && is_script_payload(
                    value,
                    code@,
                    texts(type_arguments@),
                    self.payload_arguments@,
                )
            } else {
                out matches Err(e) && e@ == ComposeFault::ScriptArgumentMismatch {
                    script: script_arguments as int,
                    payload: self.payload_arguments@.len() as int,
                }
            },
    {
        if script_arguments != self.payload_arguments.len() {
            return Err(
                ComposeError::ScriptArgumentMismatch {
                    script: script_arguments,
                    payload: self.payload_arguments.len(),
                },
            );
        }
        let mut code_members: Vec<JsonMember> = Vec::new();
        code_members.push(
            JsonMember {
                name: "bytecode".to_owned(),
                value: JsonValue::String(raw_script_output(code)),
            },
        );
        let mut members: Vec<JsonMember> = Vec::new();
        members.push(
            JsonMember {
                name: "type".to_owned(),
                value: JsonValue::String("script_payload".to_owned()),
            },
        );
        members.push(
            JsonMember { name: "code".to_owned(), value: JsonValue::Object(code_members) },
        );
        members.push(
            JsonMember { name: "type_arguments".to_owned(), value: text_array(type_arguments) },
        );
        members.push(
            JsonMember {
                name: "arguments".to_owned(),
                value: JsonValue::Array(self.payload_arguments),
            },
        );
        Ok(JsonValue::Object(members))
    }
}

/// The number of literals among the first `upto` arguments.
pub open spec fn literal_count(args: Seq<ArgInput>, upto: nat) -> nat
    decreases upto,
{
    if upto == 0 || upto > args.len() {
        0
    } else if args[upto - 1] is Literal {
        literal_count(args, (upto - 1) as nat) + 1
    } else {
        literal_count(args, (upto - 1) as nat)
    }
}

/// The number of literals in binary form among the first `upto` inputs.
pub open spec fn bytes_count(inputs: Seq<CallInput>, upto: nat) -> nat
    decreases upto,
{
    if upto == 0 || upto > inputs.len() {
        0
    } else if inputs[upto - 1] is Bytes {
        bytes_count(inputs, (upto - 1) as nat) + 1
    } else {
        bytes_count(inputs, (upto - 1) as nat)
    }
}

proof fn lemma_plan_counts(
    plan: CallPlan,
    step: ResolvedStep,
    params: Seq<Seq<char>>,
    recorded: Seq<StepReturns>,
    upto: nat,
)
    requires
        is_plan(plan, step, params, recorded),
        upto <= step.args@.len(),
    ensures
        literal_payloads(params, step.args@, upto).len() == literal_count(step.args@, upto),
        bytes_count(plan.arguments@, upto) == literal_count(step.args@, upto),
    decreases upto,
{
    if upto > 0 {
        lemma_plan_counts(plan, step, params, recorded, (upto - 1) as nat);
        let i = upto - 1;
        assert(argument_input(step.label@, i, params[i], step.args@[i], recorded) == Ok::<
            CallInputView,
            ComposeFault,
        >(plan.arguments@[i]@));
    }
}

/// A plan holds one payload argument, and gives the engine one literal in
/// binary form, for every literal argument of its step: the script that
/// the engine makes of the plans takes as many arguments as the payload
/// records.
pub proof fn lemma_plan_literals(
    plan: CallPlan,
    step: ResolvedStep,
    params: Seq<Seq<char>>,
    recorded: Seq<StepReturns>,
)
    requires
        is_plan(plan, step, params, recorded),
    ensures
        plan.payload_arguments@.len() == literal_count(step.args@, step.args@.len()),
        bytes_count(plan.arguments@, plan.arguments@.len()) == literal_count(
            step.args@,
            step.args@.len(),
        ),
{
    lemma_plan_counts(plan, step, params, recorded, step.args@.len());
}

/// The parameter types of the function of `step`, where its module is
/// loaded and they can be resolved.
pub open spec fn expected_parameters(composition: Composition, step: ResolvedStep) -> Option<
    Seq<Seq<char>>,
> {
    let at = loaded_position(
        composition.modules@,
        step.function_id.module@,
        composition.modules@.len() as int,
    );
    if at < 0 {
        None
    } else {
        match resolved_parameters(step, composition.modules@[at].info) {
            Ok(params) => Some(params),
            Err(_) => None,
        }
    }
}

/// The fault of a step that gives another number of arguments than its
/// function takes.
pub open spec fn count_mismatch(step: ResolvedStep, expected: int) -> ComposeFault {
    ComposeFault::ArgumentCountMismatch {
        label: step.label@,
        expected_count: expected,
        provided_count: step.args@.len() as int,
    }
}

/// A step whose function takes another number of parameters than the step
/// gives arguments is not planned: planning fails and names both numbers.
pub proof fn lemma_argument_count_mismatch(
    composition: Composition,
    step: ResolvedStep,
    out: Result<CallPlan, ComposeError>,
)
    requires
        call_planning(composition, step, out),
        expected_parameters(composition, step) is Some,
        expected_parameters(composition, step)->Some_0.len() != step.args@.len(),
    ensures
        out is Err,
        out->Err_0@ == count_mismatch(
            step,
            expected_parameters(composition, step)->Some_0.len() as int,
        ),
{
}

/// Planning succeeds only where the parameters of the function can be
/// resolved and are as many as the arguments of the step.
pub proof fn lemma_planned_counts_agree(
    composition: Composition,
    step: ResolvedStep,
    out: Result<CallPlan, ComposeError>,
)
    requires
        call_planning(composition, step, out),
        out is Ok,
    ensures
        expected_parameters(composition, step) is Some,
        expected_parameters(composition, step)->Some_0.len() == step.args@.len(),
{
}

/// The number of literal arguments of the first `upto` steps.
pub open spec fn total_literals(steps: Seq<ResolvedStep>, upto: nat) -> nat
    decreases upto,
{
    if upto == 0 || upto > steps.len() {
        0
    } else {
        total_literals(steps, (upto - 1) as nat) + literal_count(
            steps[upto - 1].args@,
            steps[upto - 1].args@.len(),
        )
    }
}

/// Whether `states` are the states of a composition that planned and
/// recorded the calls of `steps` one after the other, with `plans` as the
/// plans: the state before a step plans its call, and the state after it
/// holds the payload arguments of the plan behind those it held.
pub open spec fn is_run(
    states: Seq<Composition>,
    steps: Seq<ResolvedStep>,
    plans: Seq<CallPlan>,
) -> bool {
    &&& states.len() == steps.len() + 1
    &&& plans.len() == steps.len()
    &&& states[0].payload_arguments@.len() == 0
    &&& forall|i: int|
        0 <= i < steps.len() ==> call_planning(
            #[trigger] states[i],
            steps[i],
            Ok::<CallPlan, ComposeError>(plans[i]),
        )
    &&& forall|i: int|
        0 <= i < steps.len() ==> (#[trigger] states[i + 1]).payload_arguments@
            == states[i].payload_arguments@ + plans[i].payload_arguments@
}

/// A composition that planned and recorded the calls of its steps holds one
/// payload argument for every literal argument of the steps, so the count
/// that the emitted script is held against is the number of literals of
/// the payload.
pub proof fn lemma_run_records_every_literal(
    states: Seq<Composition>,
    steps: Seq<ResolvedStep>,
    plans: Seq<CallPlan>,
    upto: nat,
)
    requires
        is_run(states, steps, plans),
        upto <= steps.len(),
    ensures
        states[upto as int].payload_arguments@.len() == total_literals(steps, upto),
    decreases upto,
{
    if upto > 0 {
        let i = upto - 1;
        lemma_run_records_every_literal(states, steps, plans, i as nat);
        let out = Ok::<CallPlan, ComposeError>(plans[i]);
        assert(call_planning(states[i], steps[i], out));
        lemma_planned_counts_agree(states[i], steps[i], out);
        lemma_plan_literals(
            plans[i],
            steps[i],
            expected_parameters(states[i], steps[i])->Some_0,
            states[i].recorded@,
        );
        assert(states[i + 1].payload_arguments@ == states[i].payload_arguments@
            + plans[i].payload_arguments@);
    }
}

/// The number of literals in binary form that the first `upto` plans hand
/// to the engine.
pub open spec fn total_bytes_inputs(plans: Seq<CallPlan>, upto: nat) -> nat
    decreases upto,
{
    if upto == 0 || upto > plans.len() {
        0
    } else {
        total_bytes_inputs(plans, (upto - 1) as nat) + bytes_count(
            plans[upto - 1].arguments@,
            plans[upto - 1].arguments@.len(),
        )
    }
}

/// The engine is handed one literal in binary form for every literal
/// argument of the steps. So a script that takes one argument for each of
/// those takes as many arguments as the payload has literals, however the
/// script is printed.
pub proof fn lemma_run_hands_over_every_literal(
    states: Seq<Composition>,
    steps: Seq<ResolvedStep>,
    plans: Seq<CallPlan>,
    upto: nat,
)
    requires
        is_run(states, steps, plans),
        upto <= steps.len(),
    ensures
        total_bytes_inputs(plans, upto) == total_literals(steps, upto),
    decreases upto,
{
    if upto > 0 {
        let i = upto - 1;
        lemma_run_hands_over_every_literal(states, steps, plans, i as nat);
        let out = Ok::<CallPlan, ComposeError>(plans[i]);
        assert(call_planning(states[i], steps[i], out));
        lemma_planned_counts_agree(states[i], steps[i], out);
        lemma_plan_literals(
            plans[i],
            steps[i],
            expected_parameters(states[i], steps[i])->Some_0,
            states[i].recorded@,
        );
    }
}

/// The text of a script in raw mode reads back as the bytes of the script.
pub proof fn lemma_raw_output_reads_back(script: Seq<u8>)
    ensures
        hex_prefix().is_prefix_of(script_hex(script)),
        is_hex_text(script_hex(script).skip(2)),
        hex_decoded(script_hex(script).skip(2)) == script,
{
    assert(script_hex(script).skip(2) =~= hex_encoded(script));
    lemma_hex_round_trip(script);
}

} // verus!
