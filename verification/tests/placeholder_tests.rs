use aptos_script_compose::placeholder::{
    contains_unresolved_type_param, is_type_param_ident_char, substitute_type_parameters,
    type_param_placeholder_span,
};

#[test]
fn substitutes_generic_placeholders() {
    let actual = substitute_type_parameters(
        "0x1::object::Object<T0>",
        &["0x1::fungible_asset::Metadata".to_owned()],
    );
    assert_eq!(actual, "0x1::object::Object<0x1::fungible_asset::Metadata>");
}

#[test]
fn substitutes_generics_without_touching_identifier_text() {
    let actual = substitute_type_parameters(
        "vector<T1>",
        &["u8".to_owned(), "0x1::my::T0Coin".to_owned()],
    );
    assert_eq!(actual, "vector<0x1::my::T0Coin>");
}

#[test]
fn substitutes_only_token_placeholders() {
    let actual = substitute_type_parameters("0x1::my::T0Coin<T0>", &["u8".to_owned()]);
    assert_eq!(actual, "0x1::my::T0Coin<u8>");
}

#[test]
fn leaves_placeholder_without_type_argument() {
    let actual = substitute_type_parameters("vector<T2>", &["u8".to_owned()]);
    assert_eq!(actual, "vector<T2>");
    assert!(contains_unresolved_type_param(&actual));
}

#[test]
fn leaves_placeholder_with_huge_index() {
    let actual = substitute_type_parameters(
        "vector<T99999999999999999999999999999999>",
        &["u8".to_owned()],
    );
    assert_eq!(actual, "vector<T99999999999999999999999999999999>");
}

#[test]
fn placeholder_with_leading_zeros_selects_by_value() {
    let actual = substitute_type_parameters("T001", &["u8".to_owned(), "bool".to_owned()]);
    assert_eq!(actual, "bool");
}

#[test]
fn substitutes_several_placeholders() {
    let actual = substitute_type_parameters(
        "0x1::pair::Pair<T0, T1>",
        &["u8".to_owned(), "address".to_owned()],
    );
    assert_eq!(actual, "0x1::pair::Pair<u8, address>");
}

#[test]
fn text_without_placeholder_is_unchanged() {
    let args = ["u8".to_owned()];
    for text in ["", "u64", "0x1::coin::Coin<0x1::aptos_coin::AptosCoin>", "T", "T0Coin", "xT0"] {
        assert!(!contains_unresolved_type_param(text));
        assert_eq!(substitute_type_parameters(text, &args), text);
    }
}

#[test]
fn detects_unresolved_placeholders() {
    assert!(contains_unresolved_type_param("T0"));
    assert!(contains_unresolved_type_param("vector<T12>"));
    assert!(contains_unresolved_type_param("0x1::my::T0Coin<T0>"));
    assert!(!contains_unresolved_type_param("0x1::my::T0Coin<u8>"));
    assert!(!contains_unresolved_type_param("_T0"));
    assert!(!contains_unresolved_type_param("T0_"));
}

#[test]
fn placeholder_span_reports_digits_and_end() {
    let chars: Vec<char> = "<T10>".chars().collect();
    assert_eq!(type_param_placeholder_span(&chars, 1), Some((2, 4)));
    assert_eq!(type_param_placeholder_span(&chars, 0), None);
    assert_eq!(type_param_placeholder_span(&chars, 2), None);
    assert_eq!(type_param_placeholder_span(&chars, 9), None);
    let bare: Vec<char> = "T7".chars().collect();
    assert_eq!(type_param_placeholder_span(&bare, 0), Some((1, 2)));
}

#[test]
fn ident_chars_are_ascii_alphanumerics_and_underscore() {
    for ch in ['a', 'z', 'A', 'Z', '0', '9', '_'] {
        assert!(is_type_param_ident_char(ch));
    }
    for ch in ['<', '>', ':', ' ', ',', '&', 'é'] {
        assert!(!is_type_param_ident_char(ch));
    }
}
