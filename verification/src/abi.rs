//! What is known of a fetched module, and the parameter types of a step's
//! function after its type arguments were put in.

use vstd::prelude::*;
use vstd::string::StringExecFns;
use vstd::utf8::{encode_utf8, is_ascii_chars, is_ascii_chars_encode_utf8};
use crate::function_id::{module_text, ModuleKey, ModuleKeyView};
use crate::hexcodec::{hex_decode, hex_decoded, is_hex_text};
use crate::literal::hex_prefix;
use crate::address::{address_hex_literal, short_hex_literal};
use crate::placeholder::{
    contains_unresolved_type_param, has_placeholder, substitute_type_parameters, substituted,
};
use crate::resolve::ResolvedStep;
use crate::text::{
    chars_string, clone_texts, copy_range, starts_with_chars, str_chars, str_eq, texts,
};

verus! {

/// A function that a module exposes, with its declared parameter types.
#[derive(Debug, Clone, PartialEq, Eq)]
pub struct FunctionAbi {
    pub name: String,
    pub params: Vec<String>,
}

/// A fetched module: its bytecode and the functions it exposes. Where a
/// name is listed more than once, the last entry counts.
#[derive(Debug, Clone, PartialEq, Eq)]
pub struct ModuleInfo {
    pub bytecode: Vec<u8>,
    pub functions: Vec<FunctionAbi>,
}

/// Why the parameter types of a step could not be resolved.
#[derive(Debug, Clone, PartialEq, Eq)]
pub enum AbiError {
    /// The bytecode of a module is no hexadecimal text.
    InvalidBytecode,
    /// The module does not expose the function.
    FunctionNotFound { function: String, module: String },
    /// A placeholder of the parameter is left after substitution.
    UnresolvedPlaceholder { parameter: String, type_arguments: Vec<String> },
}

/// The mathematical content of an [`AbiError`].
pub enum AbiFault {
    InvalidBytecode,
    FunctionNotFound { function: Seq<char>, module: Seq<char> },
    UnresolvedPlaceholder { parameter: Seq<char>, type_arguments: Seq<Seq<char>> },
}

impl View for AbiError {
    type V = AbiFault;

    open spec fn view(&self) -> AbiFault {
        match self {
            AbiError::InvalidBytecode => AbiFault::InvalidBytecode,
            AbiError::FunctionNotFound { function, module } => AbiFault::FunctionNotFound {
                function: function@,
                module: module@,
            },
            AbiError::UnresolvedPlaceholder { parameter, type_arguments } => {
                AbiFault::UnresolvedPlaceholder {
                    parameter: parameter@,
                    type_arguments: texts(type_arguments@),
                }
            },
        }
    }
}

/// The position of the last function called `name` among the first `upto`,
/// or -1 when there is none.
pub open spec fn function_position(functions: Seq<FunctionAbi>, name: Seq<char>, upto: int) -> int
    decreases upto,
{
    if upto <= 0 || upto > functions.len() {
        -1
    } else if functions[upto - 1].name@ == name {
        upto - 1
    } else {
        function_position(functions, name, upto - 1)
    }
}

/// The hexadecimal digits of a module's bytecode: the text without the
/// `0x` it may begin with.
pub open spec fn bytecode_digits(text: Seq<char>) -> Seq<char> {
    if hex_prefix().is_prefix_of(text) {
        text.skip(2)
    } else {
        text
    }
}

/// A character that percent-encoding leaves as it is: an ASCII letter or
/// digit, `-`, `.`, `_` or `~`.
pub open spec fn is_unreserved(c: char) -> bool {
    ('a' <= c <= 'z') || ('A' <= c <= 'Z') || ('0' <= c <= '9') || c == '-' || c == '.' || c
        == '_' || c == '~'
}

/// The upper-case hexadecimal digit of a number below sixteen.
pub open spec fn upper_hex_digit(v: nat) -> char {
    if v < 10 {
        (('0' as int + v) as u8) as char
    } else {
        (('A' as int + v - 10) as u8) as char
    }
}

/// The percent-encoding of bytes: the byte of an unreserved character
/// stays as that character, every other byte becomes `%` and its two
/// upper-case hexadecimal digits.
pub open spec fn percent_encoded_bytes(bytes: Seq<u8>) -> Seq<char>
    decreases bytes.len(),
{
    if bytes.len() == 0 {
        Seq::empty()
    } else {
        let last = bytes.last();
        percent_encoded_bytes(bytes.drop_last()) + (if is_unreserved(last as char) {
            seq![last as char]
        } else {
            seq!['%', upper_hex_digit((last / 16) as nat), upper_hex_digit((last % 16) as nat)]
        })
    }
}

/// The percent-encoding of `text`: that of its UTF-8 bytes.
pub open spec fn percent_encoded(text: Seq<char>) -> Seq<char> {
    percent_encoded_bytes(encode_utf8(text))
}

/// `urlencoding::encode`: percent-encodes every byte of the text but those
/// of the unreserved characters.
#[verifier::external_body]
fn percent_encode(text: &str) -> (out: String)
    ensures
        out@ == percent_encoded(text@),
{
    urlencoding::encode(text).into_owned()
}

proof fn lemma_percent_encoded_plain(bytes: Seq<u8>, chars: Seq<char>)
    requires
        bytes.len() == chars.len(),
        forall|i: int| 0 <= i < chars.len() ==> is_unreserved(#[trigger] chars[i]),
        forall|i: int| 0 <= i < chars.len() ==> chars[i] as u8 == #[trigger] bytes[i],
    ensures
        percent_encoded_bytes(bytes) == chars,
    decreases bytes.len(),
{
    if bytes.len() > 0 {
        let n = bytes.len() - 1;
        lemma_percent_encoded_plain(bytes.drop_last(), chars.drop_last());
        assert(is_unreserved(chars[n]));
        assert(chars[n] as u8 == bytes[n]);
        assert(bytes[n] as char == chars[n]);
        assert(chars =~= chars.drop_last().push(chars[n]));
    } else {
        assert(chars =~= Seq::<char>::empty());
    }
}

/// Text made of unreserved characters alone is its own percent-encoding.
pub proof fn lemma_percent_encoded_unreserved(text: Seq<char>)
    requires
        forall|i: int| 0 <= i < text.len() ==> is_unreserved(#[trigger] text[i]),
    ensures
        percent_encoded(text) == text,
{
    assert(is_ascii_chars(text)) by {
        assert forall|i: int| 0 <= i < text.len() implies '\0' <= #[trigger] text[i]
            <= '\u{7f}' by {
            assert(is_unreserved(text[i]));
        }
    }
    is_ascii_chars_encode_utf8(text);
    lemma_percent_encoded_plain(encode_utf8(text), text);
}

/// The path under which a node serves the module.
pub open spec fn fetch_path(module: ModuleKeyView) -> Seq<char> {
    "/accounts/"@ + address_hex_literal(module.address) + "/module/"@ + percent_encoded(
        module.name,
    )
}

/// The position of the first parameter at or after `from` that keeps a
/// placeholder after substitution, or the number of parameters.
pub open spec fn first_unresolved(params: Seq<String>, args: Seq<Seq<char>>, from: int) -> int
    decreases params.len() - from,
{
    if 0 <= from < params.len() && !has_placeholder(substituted(params[from]@, args)) {
        first_unresolved(params, args, from + 1)
    } else {
        from
    }
}

/// The parameter types of the function of `step`: those that `info`
/// declares for it, with the type arguments of the step put in, in order.
/// No parameters are resolved when the function is not there, and none
/// when one of them keeps a placeholder; the first such is reported.
pub open spec fn resolved_parameters(step: ResolvedStep, info: ModuleInfo) -> Result<
    Seq<Seq<char>>,
    AbiFault,
> {
    let at = function_position(
        info.functions@,
        step.function_id.function@,
        info.functions@.len() as int,
    );
    let args = texts(step.type_arguments@);
    if at < 0 {
        Err(
            AbiFault::FunctionNotFound {
                function: step.function_id.function@,
                module: module_text(step.function_id.module@),
            },
        )
    } else {
        let params = info.functions@[at].params@;
        let bad = first_unresolved(params, args, 0);
        if bad < params.len() {
            Err(AbiFault::UnresolvedPlaceholder { parameter: params[bad]@, type_arguments: args })
        } else {
            Ok(Seq::new(params.len(), |i: int| substituted(params[i]@, args)))
        }
    }
}

/// What resolving the parameters of `step` against `info` must give.
pub open spec fn parameter_resolution(
    step: ResolvedStep,
    info: ModuleInfo,
    out: Result<Vec<String>, AbiError>,
) -> bool {
    match resolved_parameters(step, info) {
        Ok(params) => out matches Ok(resolved) && texts(resolved@) == params,
        Err(fault) => out matches Err(e) && e@ == fault,
    }
}

fn find_function(functions: &Vec<FunctionAbi>, name: &str) -> (at: Option<usize>)
    ensures
        match at {
            Some(i) => i < functions@.len() && i == function_position(
                functions@,
                name@,
                functions@.len() as int,
            ),
            None => function_position(functions@, name@, functions@.len() as int) < 0,
        },
{
    let mut i: usize = functions.len();
    while i > 0
        invariant
            i <= functions@.len(),
            function_position(functions@, name@, functions@.len() as int) == function_position(
                functions@,
                name@,
                i as int,
            ),
        decreases i,
    {
        if str_eq(functions[i - 1].name.as_str(), name) {
            return Some(i - 1);
        }
        i -= 1;
    }
    None
}

/// The parameter types of the function of `step`, as `module_info` declares
/// them, with every placeholder replaced by the type argument of the step
/// at its index. Fails when the module does not expose the function and
/// when a placeholder is left.
#[verifier::loop_isolation(false)]
pub fn resolve_function_params(step: &ResolvedStep, module_info: &ModuleInfo) -> (out: Result<
    Vec<String>,
    AbiError,
>)
    ensures
        parameter_resolution(*step, *module_info, out),
{
    let at = match find_function(&module_info.functions, step.function_id.function.as_str()) {
        Some(at) => at,
        None => {
            return Err(
                AbiError::FunctionNotFound {
                    function: step.function_id.function.clone(),
                    module: step.function_id.module_string(),
                },
            );
        },
    };
    let params = &module_info.functions[at].params;
    let ghost args = texts(step.type_arguments@);
    let mut resolved: Vec<String> = Vec::new();
    let mut i: usize = 0;
    while i < params.len()
        invariant
            i <= params@.len(),
            args == texts(step.type_arguments@),
            resolved@.len() == i,
            first_unresolved(params@, args, 0) == first_unresolved(params@, args, i as int),
            forall|j: int|
                0 <= j < i ==> (#[trigger] resolved@[j])@ == substituted(params@[j]@, args),
        decreases params@.len() - i,
    {
        let substituted = substitute_type_parameters(
            params[i].as_str(),
            step.type_arguments.as_slice(),
        );
        if contains_unresolved_type_param(substituted.as_str()) {
            return Err(
                AbiError::UnresolvedPlaceholder {
                    parameter: params[i].clone(),
                    type_arguments: clone_texts(&step.type_arguments),
                },
            );
        }
        resolved.push(substituted);
        i += 1;
    }
    proof {
        assert(texts(resolved@) =~= Seq::new(
            params@.len(),
            |i: int| substituted(params@[i]@, args),
        ));
    }
    Ok(resolved)
}

/// The path under which a node serves `module`:
/// `/accounts/<address>/module/<name>`, the name percent-encoded, which
/// leaves a name of letters, digits and underscores as it is.
pub fn module_fetch_path(module: &ModuleKey) -> (path: String)
    ensures
        path@ == fetch_path(module@),
        (forall|i: int| 0 <= i < module.name@.len() ==> is_unreserved(#[trigger] module.name@[i]))
            ==> path@ == "/accounts/"@ + address_hex_literal(module@.address) + "/module/"@
            + module.name@,
{
    proof {
        let name = module.name@;
        if forall|i: int| 0 <= i < name.len() ==> is_unreserved(#[trigger] name[i]) {
            lemma_percent_encoded_unreserved(name);
        }
    }
    let mut path = "/accounts/".to_owned();
    let address = short_hex_literal(&module.address);
    path.append(address.as_str());
    path.append("/module/");
    let name = percent_encode(module.name.as_str());
    path.append(name.as_str());
    path
}

/// Builds what is known of a module from a node's answer: the bytecode as
/// hexadecimal text, with or without `0x`, and the exposed functions.
pub fn module_info_from_response(bytecode_hex: &str, functions: Vec<FunctionAbi>) -> (out: Result<
    ModuleInfo,
    AbiError,
>)
    ensures
        match out {
            Ok(info) => is_hex_text(bytecode_digits(bytecode_hex@)) && info.bytecode@
                == hex_decoded(bytecode_digits(bytecode_hex@)) && info.functions == functions,
            Err(e) => !is_hex_text(bytecode_digits(bytecode_hex@)) && e@
                == AbiFault::InvalidBytecode,
        },
{
    let chars = str_chars(bytecode_hex);
    let prefix: Vec<char> = vec!['0', 'x'];
    assert(prefix@ =~= hex_prefix());
    let decoded = if starts_with_chars(&chars, &prefix) {
        let digits = copy_range(&chars, 2, chars.len());
        assert(chars@.subrange(2, chars@.len() as int) =~= chars@.skip(2));
        let text = chars_string(&digits);
        hex_decode(text.as_str())
    } else {
        hex_decode(bytecode_hex)
    };
    match decoded {
        Some(bytecode) => Ok(ModuleInfo { bytecode, functions }),
        None => Err(AbiError::InvalidBytecode),
    }
}

/// The search for an unresolved parameter passes none on its way.
pub proof fn lemma_first_unresolved(params: Seq<String>, args: Seq<Seq<char>>, from: int)
    requires
        0 <= from <= params.len(),
    ensures
        from <= first_unresolved(params, args, from) <= params.len(),
        forall|j: int|
            from <= j < first_unresolved(params, args, from) ==> !has_placeholder(
                substituted(#[trigger] params[j]@, args),
            ),
    decreases params.len() - from,
{
    if from < params.len() && !has_placeholder(substituted(params[from]@, args)) {
        lemma_first_unresolved(params, args, from + 1);
    }
}

/// No resolved parameter type keeps a placeholder.
pub proof fn lemma_resolved_parameters_are_concrete(step: ResolvedStep, info: ModuleInfo, i: int)
    requires
        resolved_parameters(step, info) is Ok,
        0 <= i < resolved_parameters(step, info)->Ok_0.len(),
    ensures
        !has_placeholder(resolved_parameters(step, info)->Ok_0[i]),
{
    let at = function_position(
        info.functions@,
        step.function_id.function@,
        info.functions@.len() as int,
    );
    lemma_first_unresolved(info.functions@[at].params@, texts(step.type_arguments@), 0);
}

} // verus!
