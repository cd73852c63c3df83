use aptos_script_compose::cli_text::{
    build_sentio_call_trace_url, default_decompile_output_dir, first_non_empty_string,
    is_file_name_char, sanitize_file_component, shorten_addr, strip_hex_prefix,
    with_optional_ledger_version,
};
use aptos_script_compose::json::{
    get_inner_or_string, get_member, get_nested_string, parse_u64, value_to_string, JsonMember,
    JsonValue,
};
use aptos_script_compose::number::{le_u64, natural_string};
use aptos_script_compose::plugin_tools::{
    doctor_found_no_issues, DoctorCheck, PluginDoctorReport, PluginStatus,
};

fn text(value: &str) -> JsonValue {
    JsonValue::String(value.to_owned())
}

fn number(value: &str) -> JsonValue {
    JsonValue::Number(value.to_owned())
}

fn object(members: Vec<(&str, JsonValue)>) -> JsonValue {
    JsonValue::Object(
        members
            .into_iter()
            .map(|(name, value)| JsonMember { name: name.to_owned(), value })
            .collect(),
    )
}

#[test]
fn shortens_long_addresses() {
    assert_eq!(shorten_addr(""), "");
    assert_eq!(shorten_addr("0x1"), "0x1");
    assert_eq!(shorten_addr("0x1234567890"), "0x1234567890");
    assert_eq!(shorten_addr("0x1234567890a"), "0x1234...890a");
    assert_eq!(
        shorten_addr("0x00000000000000000000000000000000000000000000000000000000000000a1"),
        "0x0000...00a1"
    );
}

#[test]
fn adds_the_ledger_version_to_a_path() {
    assert_eq!(with_optional_ledger_version("/accounts/0x1", None), "/accounts/0x1");
    assert_eq!(
        with_optional_ledger_version("/accounts/0x1", Some(0)),
        "/accounts/0x1?ledger_version=0"
    );
    assert_eq!(
        with_optional_ledger_version("/accounts/0x1?limit=5", Some(1205)),
        "/accounts/0x1?limit=5&ledger_version=1205"
    );
    assert_eq!(
        with_optional_ledger_version("", Some(u64::MAX)),
        "?ledger_version=18446744073709551615"
    );
}

#[test]
fn writes_natural_numbers() {
    for v in [0u64, 1, 9, 10, 11, 99, 100, 101, 12345, u64::MAX] {
        assert_eq!(natural_string(v), v.to_string());
    }
}

#[test]
fn makes_file_names() {
    assert_eq!(sanitize_file_component(""), "output");
    assert_eq!(sanitize_file_component("0x1"), "0x1");
    assert_eq!(sanitize_file_component("a/b\\c:d e"), "a_b_c_d_e");
    assert_eq!(sanitize_file_component("A-z_0.9"), "A-z_0.9");
    assert_eq!(sanitize_file_component("é~"), "__");
    assert_eq!(default_decompile_output_dir("0x1::coin"), "decompiled/0x1__coin");
    assert_eq!(default_decompile_output_dir(""), "decompiled/output");
    assert!(is_file_name_char('-'));
    assert!(!is_file_name_char('/'));
}

#[test]
fn builds_the_call_trace_address() {
    assert_eq!(
        build_sentio_call_trace_url(1, "0xabc"),
        "https://app.sentio.xyz/api/v1/move/call_trace?networkId=1&txHash=0xabc"
    );
    assert_eq!(
        build_sentio_call_trace_url(65535, ""),
        "https://app.sentio.xyz/api/v1/move/call_trace?networkId=65535&txHash="
    );
}

#[test]
fn strips_one_hex_prefix() {
    assert_eq!(strip_hex_prefix("0x12"), "12");
    assert_eq!(strip_hex_prefix("0X12"), "12");
    assert_eq!(strip_hex_prefix("0x"), "");
    assert_eq!(strip_hex_prefix("0x0x1"), "0x1");
    assert_eq!(strip_hex_prefix("12"), "12");
    assert_eq!(strip_hex_prefix("x12"), "x12");
    assert_eq!(strip_hex_prefix(""), "");
    assert_eq!(strip_hex_prefix("0"), "0");
    assert_eq!(strip_hex_prefix("0xé"), "é");
}

#[test]
fn finds_the_first_non_empty_string() {
    assert_eq!(first_non_empty_string(&[]), None);
    assert_eq!(first_non_empty_string(&["".to_owned(), "".to_owned()]), None);
    assert_eq!(
        first_non_empty_string(&["".to_owned(), " ".to_owned(), "b".to_owned()]),
        Some(" ".to_owned())
    );
    assert_eq!(first_non_empty_string(&["a".to_owned(), "b".to_owned()]), Some("a".to_owned()));
}

#[test]
fn reads_texts_from_values() {
    assert_eq!(value_to_string(&text("a")), "a");
    assert_eq!(value_to_string(&number("1.5")), "1.5");
    assert_eq!(value_to_string(&JsonValue::Bool(true)), "");
    assert_eq!(value_to_string(&JsonValue::Null), "");
    let value = object(vec![
        ("a", object(vec![("b", text("deep")), ("n", number("7"))])),
        ("inner", text("0x1")),
        ("list", JsonValue::Array(vec![text("x")])),
    ]);
    assert_eq!(get_nested_string(&value, &["a", "b"]), "deep");
    assert_eq!(get_nested_string(&value, &["a", "n"]), "7");
    assert_eq!(get_nested_string(&value, &["a"]), "");
    assert_eq!(get_nested_string(&value, &["a", "c"]), "");
    assert_eq!(get_nested_string(&value, &["list", "0"]), "");
    assert_eq!(get_nested_string(&value, &["inner", "x"]), "");
    assert_eq!(get_nested_string(&text("top"), &[]), "top");
    assert_eq!(get_inner_or_string(&value), "0x1");
    assert_eq!(get_inner_or_string(&text("plain")), "plain");
    assert_eq!(get_inner_or_string(&object(vec![("inner", number("1"))])), "");
    assert_eq!(get_member(&value, "inner"), Some(&text("0x1")));
    assert_eq!(get_member(&value, "missing"), None);
    assert_eq!(get_member(&text("a"), "a"), None);
    let twice = object(vec![("k", text("first")), ("k", text("second"))]);
    assert_eq!(get_member(&twice, "k"), Some(&text("first")));
}

#[test]
fn reads_unsigned_numbers_from_values() {
    assert_eq!(parse_u64(&text("12")), Some(12));
    assert_eq!(parse_u64(&text("+12")), Some(12));
    assert_eq!(parse_u64(&text("18446744073709551615")), Some(u64::MAX));
    assert_eq!(parse_u64(&text("18446744073709551616")), None);
    assert_eq!(parse_u64(&text("-1")), None);
    assert_eq!(parse_u64(&text(" 1")), None);
    assert_eq!(parse_u64(&text("")), None);
    assert_eq!(parse_u64(&number("0")), Some(0));
    assert_eq!(parse_u64(&number("18446744073709551615")), Some(u64::MAX));
    assert_eq!(parse_u64(&number("+1")), None);
    assert_eq!(parse_u64(&number("-1")), None);
    assert_eq!(parse_u64(&number("1.0")), None);
    assert_eq!(parse_u64(&number("1e3")), None);
    assert_eq!(parse_u64(&JsonValue::Bool(true)), None);
    assert_eq!(parse_u64(&JsonValue::Null), None);
    assert_eq!(le_u64(&vec![1, 2, 0, 0, 0, 0, 0, 0x80]), 0x8000_0000_0000_0201);
}

#[test]
fn doctor_verdict_needs_every_report_to_pass() {
    let plugin = PluginStatus {
        name: "t".to_owned(),
        description: "d".to_owned(),
        installed: true,
        binary_path: None,
        source: None,
    };
    let report = |oks: &[bool]| PluginDoctorReport {
        plugin: plugin.clone(),
        checks: oks
            .iter()
            .map(|ok| DoctorCheck { name: "c".to_owned(), ok: *ok, message: "m".to_owned() })
            .collect(),
        install_hint: None,
    };
    assert!(doctor_found_no_issues(&[]));
    assert!(doctor_found_no_issues(&[report(&[true, true]), report(&[])]));
    assert!(!doctor_found_no_issues(&[report(&[true]), report(&[true, false])]));
}
