use aptos_script_compose::compose::{ComposeError, Composition};
use aptos_script_compose::address::short_hex_literal;
use aptos_script_compose::emit::{call_rejected, type_tag_string};
use aptos_script_compose::function_id::{FunctionId, ModuleKey};
use aptos_script_compose::json::{JsonMember, JsonValue};
use aptos_script_compose::move_types::{StructTagNode, TypeTagNode};
use aptos_script_compose::resolve::ResolvedStep;
use move_core_types::account_address::AccountAddress;
use move_core_types::identifier::Identifier;
use move_core_types::language_storage::{StructTag, TypeTag};
use move_core_types::transaction_argument::TransactionArgument;

fn address(last: u8) -> Vec<u8> {
    let mut bytes = vec![0u8; 32];
    bytes[31] = last;
    bytes
}

fn tag_address(last: u8) -> AccountAddress {
    let mut bytes = [0u8; 16];
    bytes[15] = last;
    AccountAddress::new(bytes)
}

fn struct_node(last: u8, module: &str, name: &str, type_params: Vec<TypeTagNode>) -> TypeTagNode {
    TypeTagNode::Struct(StructTagNode {
        address: address(last),
        module: module.to_owned(),
        name: name.to_owned(),
        type_params,
    })
}

fn struct_tag(last: u8, module: &str, name: &str, type_params: Vec<TypeTag>) -> TypeTag {
    TypeTag::Struct(StructTag {
        address: tag_address(last),
        module: Identifier::new(module).unwrap(),
        name: Identifier::new(name).unwrap(),
        type_params,
    })
}

fn text(value: &str) -> JsonValue {
    JsonValue::String(value.to_owned())
}

fn member(name: &str, value: JsonValue) -> JsonMember {
    JsonMember { name: name.to_owned(), value }
}

#[test]
fn short_hex_literals_drop_leading_zeros() {
    assert_eq!(short_hex_literal(&address(1)), "0x1");
    assert_eq!(short_hex_literal(&address(0)), "0x0");
    assert_eq!(short_hex_literal(&address(0x10)), "0x10");
    assert_eq!(short_hex_literal(&vec![0xab, 0, 0]), "0xab0000");
    assert_eq!(short_hex_literal(&vec![]), "0x");
    for (last, expected) in [(0u8, "0x0"), (1, "0x1"), (15, "0xf"), (16, "0x10"), (255, "0xff")] {
        assert_eq!(short_hex_literal(&address(last)), expected);
    }
    assert_eq!(short_hex_literal(&vec![0xab; 32]), format!("0x{}", "ab".repeat(32)));
}

#[test]
fn writes_type_tags_in_canonical_text() {
    assert_eq!(type_tag_string(&TypeTagNode::Bool), "bool");
    assert_eq!(type_tag_string(&TypeTagNode::U8), "u8");
    assert_eq!(type_tag_string(&TypeTagNode::U64), "u64");
    assert_eq!(type_tag_string(&TypeTagNode::U128), "u128");
    assert_eq!(type_tag_string(&TypeTagNode::Address), "address");
    assert_eq!(type_tag_string(&TypeTagNode::Signer), "signer");
    assert_eq!(
        type_tag_string(&TypeTagNode::Vector(Box::new(TypeTagNode::Vector(Box::new(
            TypeTagNode::U8
        ))))),
        "vector<vector<u8>>"
    );
    assert_eq!(type_tag_string(&struct_node(1, "coin", "Coin", vec![])), "0x1::coin::Coin");
    let nested = struct_node(
        2,
        "pool",
        "Pool",
        vec![
            struct_node(1, "aptos_coin", "AptosCoin", vec![]),
            TypeTagNode::Vector(Box::new(struct_node(3, "x", "Y", vec![TypeTagNode::U64]))),
            TypeTagNode::Bool,
        ],
    );
    assert_eq!(
        type_tag_string(&nested),
        "0x2::pool::Pool<0x1::aptos_coin::AptosCoin, vector<0x3::x::Y<u64>>, bool>"
    );
}

#[test]
fn emits_the_payload_of_an_emitted_script() {
    let code = vec![0xa1u8, 0x1c, 0xeb];
    let tags = vec![struct_tag(1, "coin", "Coin", vec![TypeTag::U8]), TypeTag::Address];
    let arguments = vec![TransactionArgument::U64(7), TransactionArgument::Bool(true)];
    let script = bcs::to_bytes(&(code, tags, arguments)).unwrap();
    let mut composition = Composition::new();
    composition.record_call("a".to_owned(), vec![text("7"), JsonValue::Bool(true)], 0);
    let payload = composition.emit_script_payload(&script).unwrap();
    assert_eq!(
        payload,
        JsonValue::Object(vec![
            member("type", text("script_payload")),
            member("code", JsonValue::Object(vec![member("bytecode", text("0xa11ceb"))])),
            member(
                "type_arguments",
                JsonValue::Array(vec![text("0x1::coin::Coin<u8>"), text("address")])
            ),
            member("arguments", JsonValue::Array(vec![text("7"), JsonValue::Bool(true)])),
        ])
    );
}

#[test]
fn emitted_script_must_take_as_many_arguments_as_literals_were_recorded() {
    let arguments = vec![TransactionArgument::U8(1)];
    let script = bcs::to_bytes(&(vec![1u8], Vec::<TypeTag>::new(), arguments)).unwrap();
    let composition = Composition::new();
    assert_eq!(
        composition.emit_script_payload(&script),
        Err(ComposeError::ScriptArgumentMismatch { script: 1, payload: 0 })
    );
}

#[test]
fn undecodable_scripts_are_refused() {
    for script in [vec![], vec![5u8, 1], vec![0u8, 0, 0, 9]] {
        assert_eq!(
            Composition::new().emit_script_payload(&script),
            Err(ComposeError::UndecodableScript)
        );
    }
}

#[test]
fn rejected_calls_name_step_and_function() {
    let step = ResolvedStep {
        label: "s1".to_owned(),
        function_id: FunctionId {
            module: ModuleKey { address: address(1), name: "coin".to_owned() },
            function: "withdraw".to_owned(),
        },
        type_arguments: vec![],
        args: vec![],
    };
    assert_eq!(
        call_rejected(&step, "type mismatch".to_owned()),
        ComposeError::CallRejected {
            label: "s1".to_owned(),
            function: "0x1::coin::withdraw".to_owned(),
            reason: "type mismatch".to_owned(),
        }
    );
}
