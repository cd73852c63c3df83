use aptos_script_compose::abi::{
    module_fetch_path, module_info_from_response, resolve_function_params, AbiError, FunctionAbi,
    ModuleInfo,
};
use aptos_script_compose::compose::{
    plan_argument, raw_script_output, CallInput, ComposeError, Composition, StepReturns,
};
use aptos_script_compose::function_id::{FunctionId, ModuleKey};
use aptos_script_compose::json::{JsonMember, JsonValue};
use aptos_script_compose::literal::LiteralError;
use aptos_script_compose::payload::ArgInput;
use aptos_script_compose::resolve::ResolvedStep;

fn key(last: u8, name: &str) -> ModuleKey {
    let mut address = vec![0u8; 32];
    address[31] = last;
    ModuleKey { address, name: name.to_owned() }
}

fn abi(name: &str, params: &[&str]) -> FunctionAbi {
    FunctionAbi { name: name.to_owned(), params: params.iter().map(|p| p.to_string()).collect() }
}

fn info(functions: Vec<FunctionAbi>) -> ModuleInfo {
    ModuleInfo { bytecode: vec![1, 2, 3], functions }
}

fn step(label: &str, function: &str, type_arguments: &[&str], args: Vec<ArgInput>) -> ResolvedStep {
    ResolvedStep {
        label: label.to_owned(),
        function_id: FunctionId { module: key(1, "coin"), function: function.to_owned() },
        type_arguments: type_arguments.iter().map(|t| t.to_string()).collect(),
        args,
    }
}

fn text(value: &str) -> JsonValue {
    JsonValue::String(value.to_owned())
}

fn literal(value: JsonValue) -> ArgInput {
    ArgInput::Literal { value }
}

fn reference(step: &str, return_index: usize) -> ArgInput {
    ArgInput::Ref { step: step.to_owned(), return_index }
}

fn coin_composition() -> Composition {
    let mut composition = Composition::new();
    composition.add_module(
        key(1, "coin"),
        info(vec![
            abi("withdraw", &["&signer", "u64"]),
            abi("deposit", &["address", "0x1::coin::Coin<T0>"]),
            abi("transfer", &["&signer", "0x1::object::Object<T0>", "address", "u64"]),
        ]),
    );
    composition
}

#[test]
fn resolves_parameters_with_type_arguments() {
    let module = info(vec![abi("f", &["&signer", "0x1::object::Object<T0>", "vector<T1>", "T0Coin"])]);
    let resolved = resolve_function_params(&step("a", "f", &["0x1::m::T", "u8"], vec![]), &module);
    assert_eq!(
        resolved,
        Ok(vec![
            "&signer".to_owned(),
            "0x1::object::Object<0x1::m::T>".to_owned(),
            "vector<u8>".to_owned(),
            "T0Coin".to_owned(),
        ])
    );
}

#[test]
fn the_last_entry_of_a_function_counts() {
    let module = info(vec![abi("f", &["u8"]), abi("g", &[]), abi("f", &["u64", "bool"])]);
    assert_eq!(
        resolve_function_params(&step("a", "f", &[], vec![]), &module),
        Ok(vec!["u64".to_owned(), "bool".to_owned()])
    );
}

#[test]
fn missing_functions_are_named() {
    let module = info(vec![abi("f", &["u8"])]);
    assert_eq!(
        resolve_function_params(&step("a", "g", &[], vec![]), &module),
        Err(AbiError::FunctionNotFound { function: "g".to_owned(), module: "0x1::coin".to_owned() })
    );
}

#[test]
fn unresolved_placeholders_are_named() {
    let module = info(vec![abi("f", &["T0", "vector<T1>", "T2"])]);
    assert_eq!(
        resolve_function_params(&step("a", "f", &["u8"], vec![]), &module),
        Err(AbiError::UnresolvedPlaceholder {
            parameter: "vector<T1>".to_owned(),
            type_arguments: vec!["u8".to_owned()],
        })
    );
    assert_eq!(
        resolve_function_params(&step("a", "f", &["T5", "u8", "u8"], vec![]), &module),
        Err(AbiError::UnresolvedPlaceholder {
            parameter: "T0".to_owned(),
            type_arguments: vec!["T5".to_owned(), "u8".to_owned(), "u8".to_owned()],
        })
    );
}

#[test]
fn builds_the_fetch_path() {
    assert_eq!(module_fetch_path(&key(1, "coin")), "/accounts/0x1/module/coin");
    let mut address = vec![0u8; 32];
    address[0] = 0xab;
    let module = ModuleKey { address, name: "A_b9".to_owned() };
    assert_eq!(
        module_fetch_path(&module),
        "/accounts/0xab00000000000000000000000000000000000000000000000000000000000000/module/A_b9"
    );
    assert_eq!(module_fetch_path(&key(0, "<SELF>")), "/accounts/0x0/module/%3CSELF%3E");
}

#[test]
fn reads_module_info_from_a_response() {
    let functions = vec![abi("f", &["u8"])];
    let read = module_info_from_response("0xA11ce0", functions.clone()).unwrap();
    assert_eq!(read.bytecode, vec![0xa1, 0x1c, 0xe0]);
    assert_eq!(read.functions, functions);
    assert_eq!(module_info_from_response("a11ce0", vec![]).unwrap().bytecode, vec![0xa1, 0x1c, 0xe0]);
    assert_eq!(module_info_from_response("", vec![]).unwrap().bytecode, Vec::<u8>::new());
    assert_eq!(module_info_from_response("0x", vec![]).unwrap().bytecode, Vec::<u8>::new());
    assert_eq!(module_info_from_response("0xabc", vec![]), Err(AbiError::InvalidBytecode));
    assert_eq!(module_info_from_response("0x0x", vec![]), Err(AbiError::InvalidBytecode));
    assert_eq!(module_info_from_response("zz", vec![]), Err(AbiError::InvalidBytecode));
}

#[test]
fn plans_a_call_with_every_kind_of_argument() {
    let mut composition = coin_composition();
    composition.record_call("s0".to_owned(), vec![], 2);
    let call = step(
        "s1",
        "transfer",
        &["0x1::fungible_asset::Metadata"],
        vec![ArgInput::Signer, literal(text("0x1")), reference("s0", 1), literal(text("205000000n"))],
    );
    let plan = composition.plan_call(&call).unwrap();
    assert_eq!(plan.label, "s1");
    assert_eq!(plan.module, "0x1::coin");
    assert_eq!(plan.function, "transfer");
    assert_eq!(plan.type_arguments, vec!["0x1::fungible_asset::Metadata".to_owned()]);
    let mut one = vec![0u8; 32];
    one[31] = 1;
    assert_eq!(
        plan.arguments,
        vec![
            CallInput::Signer,
            CallInput::Bytes(one),
            CallInput::Returned { step: "s0".to_owned(), return_index: 1 },
            CallInput::Bytes(vec![0x40, 0x0d, 0x38, 0x0c, 0, 0, 0, 0]),
        ]
    );
    assert_eq!(plan.payload_arguments, vec![text("0x1"), text("205000000")]);
}

#[test]
fn planning_needs_the_module() {
    let composition = Composition::new();
    assert_eq!(
        composition.plan_call(&step("s1", "withdraw", &[], vec![])),
        Err(ComposeError::ModuleNotLoaded { module: "0x1::coin".to_owned() })
    );
}

#[test]
fn planning_reports_abi_errors() {
    let composition = coin_composition();
    assert_eq!(
        composition.plan_call(&step("s1", "burn", &[], vec![])),
        Err(ComposeError::Abi(AbiError::FunctionNotFound {
            function: "burn".to_owned(),
            module: "0x1::coin".to_owned(),
        }))
    );
    assert_eq!(
        composition.plan_call(&step("s1", "deposit", &[], vec![])),
        Err(ComposeError::Abi(AbiError::UnresolvedPlaceholder {
            parameter: "0x1::coin::Coin<T0>".to_owned(),
            type_arguments: vec![],
        }))
    );
}

#[test]
fn argument_count_mismatch_names_both_counts() {
    let composition = coin_composition();
    for args in [vec![], vec![ArgInput::Signer], vec![ArgInput::Signer, ArgInput::Signer, ArgInput::Signer]] {
        let provided = args.len();
        assert_eq!(
            composition.plan_call(&step("s1", "withdraw", &[], args)),
            Err(ComposeError::ArgumentCountMismatch {
                label: "s1".to_owned(),
                expected_count: 2,
                provided_count: provided,
            })
        );
    }
}

#[test]
fn signer_needs_a_signer_parameter() {
    let composition = coin_composition();
    assert_eq!(
        composition.plan_call(&step("s1", "withdraw", &[], vec![ArgInput::Signer, ArgInput::Signer])),
        Err(ComposeError::SignerMismatch {
            label: "s1".to_owned(),
            arg_index: 1,
            expected: "u64".to_owned(),
        })
    );
    assert_eq!(
        plan_argument("s", 0, " & signer ", &ArgInput::Signer, &vec![]),
        Ok((CallInput::Signer, None))
    );
    for param in ["signer", "&mut signer", "&Signer"] {
        assert_eq!(
            plan_argument("s", 3, param, &ArgInput::Signer, &vec![]),
            Err(ComposeError::SignerMismatch {
                label: "s".to_owned(),
                arg_index: 3,
                expected: param.to_owned(),
            })
        );
    }
}

#[test]
fn literal_errors_name_step_argument_and_type() {
    let composition = coin_composition();
    assert_eq!(
        composition.plan_call(&step("s1", "withdraw", &[], vec![ArgInput::Signer, literal(text("x"))])),
        Err(ComposeError::InvalidLiteral {
            label: "s1".to_owned(),
            arg_index: 1,
            expected: "u64".to_owned(),
            error: LiteralError::InvalidNumber { text: "x".to_owned() },
        })
    );
    assert_eq!(
        composition.plan_call(&step("s1", "withdraw", &[], vec![literal(text("1")), literal(text("1"))])),
        Err(ComposeError::InvalidLiteral {
            label: "s1".to_owned(),
            arg_index: 0,
            expected: "&signer".to_owned(),
            error: LiteralError::UnsupportedType { parameter: "&signer".to_owned() },
        })
    );
}

#[test]
fn references_need_a_recorded_step_and_an_index_in_range() {
    let recorded = vec![
        StepReturns { label: "a".to_owned(), count: 1 },
        StepReturns { label: "b".to_owned(), count: 0 },
        StepReturns { label: "a".to_owned(), count: 3 },
    ];
    assert_eq!(
        plan_argument("s", 0, "u64", &reference("a", 2), &recorded),
        Ok((CallInput::Returned { step: "a".to_owned(), return_index: 2 }, None))
    );
    assert_eq!(
        plan_argument("s", 1, "u64", &reference("a", 3), &recorded),
        Err(ComposeError::ReturnIndexOutOfRange {
            label: "s".to_owned(),
            arg_index: 1,
            reference: "a".to_owned(),
            return_index: 3,
            available: 3,
        })
    );
    assert_eq!(
        plan_argument("s", 2, "u64", &reference("b", 0), &recorded),
        Err(ComposeError::ReturnIndexOutOfRange {
            label: "s".to_owned(),
            arg_index: 2,
            reference: "b".to_owned(),
            return_index: 0,
            available: 0,
        })
    );
    assert_eq!(
        plan_argument("s", 4, "u64", &reference("c", 0), &recorded),
        Err(ComposeError::UnknownStep {
            label: "s".to_owned(),
            arg_index: 4,
            reference: "c".to_owned(),
        })
    );
}

#[test]
fn recorded_calls_accumulate() {
    let mut composition = coin_composition();
    composition.record_call("a".to_owned(), vec![text("1")], 2);
    composition.record_call("b".to_owned(), vec![], 0);
    composition.record_call("c".to_owned(), vec![JsonValue::Bool(true), text("0x1")], 1);
    assert_eq!(
        composition.recorded,
        vec![
            StepReturns { label: "a".to_owned(), count: 2 },
            StepReturns { label: "b".to_owned(), count: 0 },
            StepReturns { label: "c".to_owned(), count: 1 },
        ]
    );
    assert_eq!(
        composition.payload_arguments,
        vec![text("1"), JsonValue::Bool(true), text("0x1")]
    );
    assert_eq!(composition.modules.len(), 1);
}

#[test]
fn every_literal_gives_one_payload_argument_and_one_byte_input() {
    let composition = coin_composition();
    let call = step(
        "s1",
        "transfer",
        &["u8"],
        vec![ArgInput::Signer, literal(text("0x2")), literal(text("0x3")), literal(text("9"))],
    );
    let plan = composition.plan_call(&call).unwrap();
    let literals = call.args.iter().filter(|arg| matches!(arg, ArgInput::Literal { .. })).count();
    let bytes = plan.arguments.iter().filter(|arg| matches!(arg, CallInput::Bytes(_))).count();
    assert_eq!(plan.payload_arguments.len(), literals);
    assert_eq!(bytes, literals);
}

#[test]
fn raw_output_is_prefixed_hex() {
    assert_eq!(raw_script_output(&vec![]), "0x");
    assert_eq!(raw_script_output(&vec![0, 1, 0xab, 0xff]), "0x0001abff");
}

#[test]
fn emits_the_script_payload() {
    let mut composition = Composition::new();
    composition.record_call("a".to_owned(), vec![text("205000000"), JsonValue::Bool(false)], 1);
    let payload = composition
        .into_script_payload(&vec![0xa1, 0x1c], vec!["0x1::m::T".to_owned(), "u8".to_owned()], 2)
        .unwrap();
    let member = |name: &str, value: JsonValue| JsonMember { name: name.to_owned(), value };
    assert_eq!(
        payload,
        JsonValue::Object(vec![
            member("type", text("script_payload")),
            member("code", JsonValue::Object(vec![member("bytecode", text("0xa11c"))])),
            member("type_arguments", JsonValue::Array(vec![text("0x1::m::T"), text("u8")])),
            member("arguments", JsonValue::Array(vec![text("205000000"), JsonValue::Bool(false)])),
        ])
    );
}

#[test]
fn script_payload_needs_matching_argument_counts() {
    let mut composition = Composition::new();
    composition.record_call("a".to_owned(), vec![text("1")], 1);
    assert_eq!(
        composition.into_script_payload(&vec![], vec![], 3),
        Err(ComposeError::ScriptArgumentMismatch { script: 3, payload: 1 })
    );
}
