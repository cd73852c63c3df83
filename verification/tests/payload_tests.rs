use aptos_script_compose::json::{JsonMember, JsonValue};
use aptos_script_compose::payload::{
    parse_arg, parse_step, parse_steps_payload, ArgInput, PayloadError, StepInput,
};
use serde_json::Value;

fn to_json(value: Value) -> JsonValue {
    match value {
        Value::Null => JsonValue::Null,
        Value::Bool(b) => JsonValue::Bool(b),
        Value::Number(n) => JsonValue::Number(n.to_string()),
        Value::String(s) => JsonValue::String(s),
        Value::Array(items) => JsonValue::Array(items.into_iter().map(to_json).collect()),
        Value::Object(map) => JsonValue::Object(
            map.into_iter()
                .map(|(name, value)| JsonMember { name, value: to_json(value) })
                .collect(),
        ),
    }
}

fn parse_text(json: &str) -> Result<Vec<StepInput>, PayloadError> {
    let raw: Value = serde_json::from_str(json).unwrap();
    parse_steps_payload(to_json(raw))
}

fn member(name: &str, value: JsonValue) -> JsonMember {
    JsonMember { name: name.to_owned(), value }
}

fn text(value: &str) -> JsonValue {
    JsonValue::String(value.to_owned())
}

#[test]
fn rejects_tokens_field() {
    let json = r#"
        {
          "tokens": [],
          "steps": []
        }
        "#;
    let raw: Value = serde_json::from_str(json).unwrap();
    assert!(parse_steps_payload(to_json(raw)).is_err());
}

#[test]
fn parses_direct_steps_array_with_type_arguments_alias() {
    let json = r#"
        [{
            "label": "s1",
            "function": "0x1::coin::withdraw",
            "type_arguments": ["0x1::aptos_coin::AptosCoin"],
            "args": [{"kind":"signer"}, {"kind":"literal","value":"1"}]
        }]
        "#;
    let raw: Value = serde_json::from_str(json).unwrap();
    let steps = parse_steps_payload(to_json(raw)).unwrap();
    assert_eq!(steps[0].type_arguments.len(), 1);
}

#[test]
fn rejects_legacy_steps_object() {
    let json = r#"
        {
          "steps": [{
            "label": "s1",
            "function": "0x1::coin::withdraw",
            "args": [{"kind":"signer"}, {"kind":"literal","value":"1"}]
          }]
        }
        "#;
    let raw: Value = serde_json::from_str(json).unwrap();
    assert!(parse_steps_payload(to_json(raw)).is_err());
}

#[test]
fn rejects_unknown_fields_in_args() {
    let json = r#"
        [{
            "label": "s1",
            "function": "0x1::coin::withdraw",
            "args": [{"kind":"signer","foo":1}]
        }]
        "#;
    let raw: Value = serde_json::from_str(json).unwrap();
    assert!(parse_steps_payload(to_json(raw)).is_err());
}

#[test]
fn non_array_top_levels_are_not_an_array() {
    for json in ["{}", "null", "true", "12", "\"steps\"", "{\"steps\": []}"] {
        assert_eq!(parse_text(json), Err(PayloadError::NotAnArray));
    }
}

#[test]
fn empty_array_decodes_to_no_steps() {
    assert_eq!(parse_text("[]"), Ok(vec![]));
}

#[test]
fn decodes_every_member_of_a_step() {
    let json = r#"
        [{
            "label": " first ",
            "function": "0x1::coin::withdraw",
            "typeArguments": ["0x1::aptos_coin::AptosCoin", "u8"],
            "args": [
                {"kind": "signer"},
                {"kind": "literal", "value": {"nested": [1, 2]}},
                {"kind": "ref", "step": "s0", "returnIndex": 3},
                {"kind": "ref", "step": "s1", "return_index": 0}
            ]
        }]
        "#;
    let steps = parse_text(json).unwrap();
    assert_eq!(steps.len(), 1);
    assert_eq!(steps[0].label, " first ");
    assert_eq!(steps[0].function, "0x1::coin::withdraw");
    assert_eq!(
        steps[0].type_arguments,
        vec!["0x1::aptos_coin::AptosCoin".to_owned(), "u8".to_owned()]
    );
    assert_eq!(steps[0].args.len(), 4);
    assert_eq!(steps[0].args[0], ArgInput::Signer);
    assert_eq!(
        steps[0].args[1],
        ArgInput::Literal {
            value: JsonValue::Object(vec![member(
                "nested",
                JsonValue::Array(vec![
                    JsonValue::Number("1".to_owned()),
                    JsonValue::Number("2".to_owned())
                ])
            )])
        }
    );
    assert_eq!(steps[0].args[2], ArgInput::Ref { step: "s0".to_owned(), return_index: 3 });
    assert_eq!(steps[0].args[3], ArgInput::Ref { step: "s1".to_owned(), return_index: 0 });
}

#[test]
fn type_arguments_default_to_none() {
    let steps =
        parse_text(r#"[{"label": "a", "function": "0x1::m::f", "args": []}]"#).unwrap();
    assert!(steps[0].type_arguments.is_empty());
    assert!(steps[0].args.is_empty());
}

#[test]
fn reports_the_first_invalid_step() {
    let json = r#"
        [
          {"label": "a", "function": "0x1::m::f", "args": []},
          {"label": "b", "function": "0x1::m::f"},
          {"label": "c"}
        ]
        "#;
    assert_eq!(parse_text(json), Err(PayloadError::InvalidStep { index: 1 }));
}

#[test]
fn reports_the_first_invalid_argument() {
    let json = r#"
        [
          {"label": "a", "function": "0x1::m::f", "args": []},
          {"label": "b", "function": "0x1::m::f", "args": [
              {"kind": "signer"}, {"kind": "other"}, {"kind": "signer", "x": 1}
          ]}
        ]
        "#;
    assert_eq!(parse_text(json), Err(PayloadError::InvalidArgument { step: 1, arg: 1 }));
}

#[test]
fn step_shape_faults_are_invalid_steps() {
    for step in [
        r#"[]"#,
        r#""text""#,
        r#"{"function": "0x1::m::f", "args": []}"#,
        r#"{"label": "a", "args": []}"#,
        r#"{"label": "a", "function": "0x1::m::f"}"#,
        r#"{"label": 1, "function": "0x1::m::f", "args": []}"#,
        r#"{"label": "a", "function": ["0x1::m::f"], "args": []}"#,
        r#"{"label": "a", "function": "0x1::m::f", "args": {}}"#,
        r#"{"label": "a", "function": "0x1::m::f", "args": [], "extra": 1}"#,
        r#"{"label": "a", "function": "0x1::m::f", "args": [], "typeArguments": "u8"}"#,
        r#"{"label": "a", "function": "0x1::m::f", "args": [], "typeArguments": [1]}"#,
        r#"{"label": "a", "function": "0x1::m::f", "args": [], "typeArguments": [], "type_arguments": []}"#,
    ] {
        let json = format!("[{}]", step);
        assert_eq!(parse_text(&json), Err(PayloadError::InvalidStep { index: 0 }));
    }
}

#[test]
fn argument_faults_are_refused() {
    for arg in [
        r#"1"#,
        r#"[]"#,
        r#"{}"#,
        r#"{"kind": 1}"#,
        r#"{"kind": "Signer"}"#,
        r#"{"kind": "literal"}"#,
        r#"{"kind": "literal", "value": 1, "step": "a"}"#,
        r#"{"kind": "ref"}"#,
        r#"{"kind": "ref", "step": "a"}"#,
        r#"{"kind": "ref", "returnIndex": 0}"#,
        r#"{"kind": "ref", "step": 1, "returnIndex": 0}"#,
        r#"{"kind": "ref", "step": "a", "returnIndex": "0"}"#,
        r#"{"kind": "ref", "step": "a", "returnIndex": -1}"#,
        r#"{"kind": "ref", "step": "a", "returnIndex": 1.5}"#,
        r#"{"kind": "ref", "step": "a", "returnIndex": 0, "return_index": 0}"#,
        r#"{"kind": "ref", "step": "a", "returnIndex": 0, "value": 0}"#,
        r#"{"kind": "signer", "value": 0}"#,
    ] {
        let value: Value = serde_json::from_str(arg).unwrap();
        assert_eq!(parse_arg(to_json(value)), None);
    }
}

#[test]
fn repeated_member_names_are_refused() {
    let twice = JsonValue::Object(vec![member("kind", text("signer")), member("kind", text("signer"))]);
    assert_eq!(parse_arg(twice), None);
    let step = JsonValue::Object(vec![
        member("label", text("a")),
        member("label", text("a")),
        member("function", text("0x1::m::f")),
        member("args", JsonValue::Array(vec![])),
    ]);
    assert_eq!(parse_step(step, 7), Err(PayloadError::InvalidStep { index: 7 }));
}

#[test]
fn return_index_beyond_usize_is_refused() {
    let arg = JsonValue::Object(vec![
        member("kind", text("ref")),
        member("step", text("a")),
        member("returnIndex", JsonValue::Number("340282366920938463463374607431768211456".to_owned())),
    ]);
    assert_eq!(parse_arg(arg), None);
}

#[test]
fn literal_keeps_its_value() {
    let arg = JsonValue::Object(vec![
        member("value", JsonValue::Null),
        member("kind", text("literal")),
    ]);
    assert_eq!(parse_arg(arg), Some(ArgInput::Literal { value: JsonValue::Null }));
}
