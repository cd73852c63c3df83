use aptos_script_compose::function_id::{FunctionId, FunctionIdFault, ModuleKey};
use aptos_script_compose::json::{JsonMember, JsonValue};
use aptos_script_compose::payload::PayloadError;
use aptos_script_compose::pipeline::{prepare, PrepareError};
use aptos_script_compose::address::widen_address;
use aptos_script_compose::modules::{collect_required_modules, modules_of_tag, same_module};
use aptos_script_compose::move_types::{StructTagNode, TypeTagNode};
use aptos_script_compose::payload::{ArgInput, StepInput};
use aptos_script_compose::resolve::{resolve_steps, ResolveError, ResolvedStep};

fn address(last: u8) -> Vec<u8> {
    let mut bytes = vec![0u8; 32];
    bytes[31] = last;
    bytes
}

fn key(last: u8, name: &str) -> ModuleKey {
    ModuleKey { address: address(last), name: name.to_owned() }
}

fn step(label: &str, function: &str, type_arguments: &[&str], args: Vec<ArgInput>) -> StepInput {
    StepInput {
        label: label.to_owned(),
        function: function.to_owned(),
        type_arguments: type_arguments.iter().map(|t| t.to_string()).collect(),
        args,
    }
}

fn reference(step: &str, return_index: usize) -> ArgInput {
    ArgInput::Ref { step: step.to_owned(), return_index }
}

fn resolved(label: &str, module: ModuleKey, function: &str, type_arguments: &[&str]) -> ResolvedStep {
    ResolvedStep {
        label: label.to_owned(),
        function_id: FunctionId { module, function: function.to_owned() },
        type_arguments: type_arguments.iter().map(|t| t.to_string()).collect(),
        args: vec![],
    }
}

#[test]
fn parses_function_ids() {
    let id = FunctionId::parse("0x1::coin::withdraw").unwrap();
    assert_eq!(id.module, key(1, "coin"));
    assert_eq!(id.function, "withdraw");
    assert_eq!(id.module_string(), "0x1::coin");
    assert_eq!(id.fully_qualified(), "0x1::coin::withdraw");
    let long = FunctionId::parse(
        "00000000000000000000000000000000000000000000000000000000000000ff::m_1::_f",
    ).unwrap();
    assert_eq!(long.module, key(255, "m_1"));
    assert_eq!(long.fully_qualified(), "0xff::m_1::_f");
    let padded = FunctionId::parse("0x0000A::M::F").unwrap();
    assert_eq!(padded.module_string(), "0xa::M");
}

#[test]
fn refuses_malformed_function_ids() {
    for (text, fault) in [
        ("", FunctionIdFault::SegmentCount),
        ("0x1", FunctionIdFault::SegmentCount),
        ("0x1::coin", FunctionIdFault::SegmentCount),
        ("0x1::coin::withdraw::more", FunctionIdFault::SegmentCount),
        ("0x1:coin:withdraw", FunctionIdFault::SegmentCount),
        ("::coin::withdraw", FunctionIdFault::Address),
        ("1::coin::withdraw", FunctionIdFault::Address),
        ("0xg::coin::withdraw", FunctionIdFault::Address),
        ("000000000000000000000000000000ff::coin::withdraw", FunctionIdFault::Address),
        (
            "0x00000000000000000000000000000000000000000000000000000000000000001::coin::withdraw",
            FunctionIdFault::Address,
        ),
        (" 0x1::coin::withdraw", FunctionIdFault::Address),
        ("0x1::::withdraw", FunctionIdFault::ModuleName),
        ("0x1::1coin::withdraw", FunctionIdFault::ModuleName),
        ("0x1::_::withdraw", FunctionIdFault::ModuleName),
        ("0x1::coin::", FunctionIdFault::FunctionName),
        ("0x1::coin::with draw", FunctionIdFault::FunctionName),
        ("0x1::coin:::withdraw", FunctionIdFault::FunctionName),
        ("0x1::coin::withdraw ", FunctionIdFault::FunctionName),
    ] {
        assert_eq!(FunctionId::parse(text), Err(fault), "{}", text);
    }
}

#[test]
fn resolves_steps_in_order() {
    let steps = vec![
        step(" s1 ", "0x1::coin::withdraw", &["0x1::aptos_coin::AptosCoin"], vec![ArgInput::Signer]),
        step(
            "s2",
            "0x1::coin::deposit",
            &["vector<u8>"],
            vec![reference("s1", 0), ArgInput::Literal { value: JsonValue::Null }],
        ),
    ];
    let resolved = resolve_steps(steps).unwrap();
    assert_eq!(resolved.len(), 2);
    assert_eq!(resolved[0].label, "s1");
    assert_eq!(resolved[0].function_id.module, key(1, "coin"));
    assert_eq!(resolved[0].function_id.function, "withdraw");
    assert_eq!(resolved[0].type_arguments, vec!["0x1::aptos_coin::AptosCoin".to_owned()]);
    assert_eq!(resolved[0].args, vec![ArgInput::Signer]);
    assert_eq!(resolved[1].label, "s2");
    assert_eq!(
        resolved[1].args,
        vec![reference("s1", 0), ArgInput::Literal { value: JsonValue::Null }]
    );
}

#[test]
fn refuses_an_empty_payload() {
    assert_eq!(resolve_steps(vec![]), Err(ResolveError::EmptyPayload));
}

#[test]
fn refuses_empty_labels() {
    let steps = vec![step("a", "0x1::m::f", &[], vec![]), step(" \t", "0x1::m::f", &[], vec![])];
    assert_eq!(resolve_steps(steps), Err(ResolveError::EmptyLabel { index: 1 }));
}

#[test]
fn refuses_duplicate_labels_wherever_they_stand() {
    for (first, second) in [(0usize, 1usize), (0, 2), (1, 2)] {
        let mut labels = vec!["a".to_owned(), "b".to_owned(), "c".to_owned()];
        labels[second] = format!(" {} ", labels[first]);
        let steps: Vec<StepInput> =
            labels.iter().map(|label| step(label, "0x1::m::f", &[], vec![])).collect();
        assert_eq!(
            resolve_steps(steps),
            Err(ResolveError::DuplicateLabel { label: labels[first].clone() })
        );
    }
}

#[test]
fn refuses_invalid_function_ids_naming_the_function() {
    let steps = vec![step("a", "0x1::m", &[], vec![])];
    assert_eq!(
        resolve_steps(steps),
        Err(ResolveError::InvalidFunctionId {
            label: "a".to_owned(),
            function: "0x1::m".to_owned(),
            fault: FunctionIdFault::SegmentCount,
        })
    );
}

#[test]
fn refuses_invalid_type_arguments_naming_the_tag() {
    let steps = vec![step("a", "0x1::m::f", &["u8", "vector<", "??"], vec![])];
    assert_eq!(
        resolve_steps(steps),
        Err(ResolveError::InvalidTypeArgument {
            label: "a".to_owned(),
            type_argument: "vector<".to_owned(),
        })
    );
}

#[test]
fn accepts_the_type_tags_of_the_parser() {
    for tag in ["u8", "u64", "u128", "bool", "address", "signer", "vector<u8>", "0x1::m::S<u64, 0x2::n::T>", " vector< 0x1::m::S > "] {
        assert!(resolve_steps(vec![step("a", "0x1::m::f", &[tag], vec![])]).is_ok(), "{}", tag);
    }
}

#[test]
fn refuses_forward_self_and_unknown_references() {
    let forward = vec![
        step("a", "0x1::m::f", &[], vec![ArgInput::Signer, reference("b", 0)]),
        step("b", "0x1::m::f", &[], vec![]),
    ];
    assert_eq!(
        resolve_steps(forward),
        Err(ResolveError::UnknownReference {
            label: "a".to_owned(),
            arg_index: 1,
            reference: "b".to_owned(),
        })
    );
    let own = vec![step("a", "0x1::m::f", &[], vec![reference("a", 0)])];
    assert_eq!(
        resolve_steps(own),
        Err(ResolveError::UnknownReference {
            label: "a".to_owned(),
            arg_index: 0,
            reference: "a".to_owned(),
        })
    );
    let unknown = vec![
        step("a", "0x1::m::f", &[], vec![]),
        step("b", "0x1::m::f", &[], vec![reference("a", 0), reference(" a", 0)]),
    ];
    assert_eq!(
        resolve_steps(unknown),
        Err(ResolveError::UnknownReference {
            label: "b".to_owned(),
            arg_index: 1,
            reference: " a".to_owned(),
        })
    );
}

#[test]
fn accepts_references_to_earlier_steps() {
    let steps = vec![
        step("a", "0x1::m::f", &[], vec![]),
        step("b", "0x1::m::f", &[], vec![reference("a", 5)]),
        step("c", "0x1::m::f", &[], vec![reference("a", 0), reference("b", 1)]),
    ];
    assert!(resolve_steps(steps).is_ok());
}

#[test]
fn the_first_fault_of_the_first_faulty_step_is_reported() {
    let steps = vec![
        step("a", "0x1::m::f", &[], vec![]),
        step("a", "bad", &["??"], vec![reference("zz", 0)]),
        step("", "bad", &[], vec![]),
    ];
    assert_eq!(resolve_steps(steps), Err(ResolveError::DuplicateLabel { label: "a".to_owned() }));
}

#[test]
fn collects_modules_in_order_of_first_discovery() {
    let steps = vec![
        resolved("a", key(1, "coin"), "withdraw", &["0x2::pool::Pool<0x1::aptos_coin::AptosCoin, vector<0x3::x::Y>>", "u8"]),
        resolved("b", key(3, "x"), "f", &["vector<0x1::coin::Coin<0x4::z::W>>"]),
        resolved("c", key(1, "coin"), "deposit", &[]),
    ];
    let modules = collect_required_modules(&steps).unwrap();
    assert_eq!(
        modules,
        vec![key(1, "coin"), key(2, "pool"), key(1, "aptos_coin"), key(3, "x"), key(4, "z")]
    );
}

#[test]
fn collecting_fails_at_the_first_invalid_type_argument() {
    let steps = vec![
        resolved("a", key(1, "coin"), "withdraw", &["u8"]),
        resolved("b", key(1, "coin"), "withdraw", &["u64", "0x1::", "??"]),
    ];
    assert_eq!(
        collect_required_modules(&steps),
        Err(ResolveError::InvalidTypeArgument {
            label: "b".to_owned(),
            type_argument: "0x1::".to_owned(),
        })
    );
}

#[test]
fn no_steps_need_no_modules() {
    assert_eq!(collect_required_modules(&[]), Ok(vec![]));
}

#[test]
fn modules_are_the_same_by_address_and_name() {
    assert!(same_module(&key(1, "coin"), &key(1, "coin")));
    assert!(!same_module(&key(1, "coin"), &key(2, "coin")));
    assert!(!same_module(&key(1, "coin"), &key(1, "Coin")));
}

#[test]
fn prepares_a_payload() {
    let member = |name: &str, value: JsonValue| JsonMember { name: name.to_owned(), value };
    let text = |value: &str| JsonValue::String(value.to_owned());
    let step_object = |label: &str, function: &str, tags: Vec<JsonValue>| {
        JsonValue::Object(vec![
            member("label", text(label)),
            member("function", text(function)),
            member("typeArguments", JsonValue::Array(tags)),
            member("args", JsonValue::Array(vec![])),
        ])
    };
    let raw = JsonValue::Array(vec![
        step_object("a", "0x1::coin::withdraw", vec![text("0x1::aptos_coin::AptosCoin")]),
        step_object("b", "0x2::pool::swap", vec![text("vector<0x1::coin::Coin<u8>>")]),
    ]);
    let prepared = prepare(raw).unwrap();
    assert_eq!(prepared.steps.len(), 2);
    assert_eq!(prepared.steps[1].label, "b");
    assert_eq!(prepared.modules, vec![key(1, "coin"), key(1, "aptos_coin"), key(2, "pool")]);

    assert_eq!(
        prepare(JsonValue::Null),
        Err(PrepareError::Payload(PayloadError::NotAnArray))
    );
    assert_eq!(
        prepare(JsonValue::Array(vec![])),
        Err(PrepareError::Resolve(ResolveError::EmptyPayload))
    );
    let bad = JsonValue::Array(vec![step_object("a", "0x1::coin::withdraw", vec![text("0x1::")])]);
    assert_eq!(
        prepare(bad),
        Err(PrepareError::Resolve(ResolveError::InvalidTypeArgument {
            label: "a".to_owned(),
            type_argument: "0x1::".to_owned(),
        }))
    );
}

#[test]
fn identifiers_are_letters_digits_and_underscores() {
    let cases = [
        ("a", true),
        ("Z", true),
        ("a1_B", true),
        ("_a", true),
        ("__", true),
        ("_1", true),
        ("<SELF>", true),
        ("_", false),
        ("", false),
        ("1a", false),
        ("a-b", false),
        ("a b", false),
        ("a.b", false),
        ("<self>", false),
        ("a<SELF>", false),
        ("é", false),
        ("aé", false),
        ("a$", false),
    ];
    for (name, valid) in cases {
        let as_module = FunctionId::parse(&format!("0x1::{}::f", name));
        let as_function = FunctionId::parse(&format!("0x1::m::{}", name));
        if valid {
            assert_eq!(as_module.unwrap().module.name, name);
            assert_eq!(as_function.unwrap().function, name);
        } else {
            assert_eq!(as_module, Err(FunctionIdFault::ModuleName), "{}", name);
            assert_eq!(as_function, Err(FunctionIdFault::FunctionName), "{}", name);
        }
    }
}

#[test]
fn function_ids_take_long_addresses() {
    let literal = format!("0x{}::coin::withdraw", "ab".repeat(32));
    let id = FunctionId::parse(&literal).unwrap();
    assert_eq!(id.module.address, vec![0xab; 32]);
    assert_eq!(id.fully_qualified(), literal);
}

#[test]
fn widens_short_addresses() {
    let mut expected = vec![0u8; 32];
    expected[30] = 0xab;
    expected[31] = 0xcd;
    assert_eq!(widen_address(&vec![0xab, 0xcd]), expected);
    assert_eq!(widen_address(&vec![]), vec![0u8; 32]);
    assert_eq!(widen_address(&vec![7u8; 32]), vec![7u8; 32]);
    assert_eq!(widen_address(&vec![7u8; 33]), vec![7u8; 33]);
}

#[test]
fn walks_a_tag_in_pre_order() {
    let node = |last: u8, module: &str, type_params: Vec<TypeTagNode>| {
        let mut short = vec![0u8; 16];
        short[15] = last;
        TypeTagNode::Struct(StructTagNode {
            address: short,
            module: module.to_owned(),
            name: "T".to_owned(),
            type_params,
        })
    };
    let tag = node(
        2,
        "pool",
        vec![
            node(1, "coin", vec![TypeTagNode::Vector(Box::new(node(3, "x", vec![])))]),
            TypeTagNode::U8,
            node(1, "coin", vec![]),
        ],
    );
    assert_eq!(
        modules_of_tag(&tag),
        vec![key(2, "pool"), key(1, "coin"), key(3, "x"), key(1, "coin")]
    );
    assert_eq!(modules_of_tag(&TypeTagNode::Address), vec![]);
}
