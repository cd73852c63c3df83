use aptos_script_compose::number::{parse_integer, IntegerType};
use aptos_script_compose::text::{
    chars_are, chars_string, contains_char, copy_bytes, copy_range, decimal_digit_of,
    is_blank_str, is_decimal_digit_char, is_whitespace_char, parse_index, starts_with_chars,
    str_chars, str_eq, strip_whitespace, trim_chars,
};

fn chars(text: &str) -> Vec<char> {
    text.chars().collect()
}

#[test]
fn strings_and_chars_convert_both_ways() {
    for text in ["", "abc", "héllo wörld", "0x1::coin::Coin<T0>"] {
        assert_eq!(str_chars(text), chars(text));
        assert_eq!(chars_string(&chars(text)), text);
    }
}

#[test]
fn whitespace_is_unicode_white_space() {
    for code in 0u32..0x3100 {
        if let Some(c) = char::from_u32(code) {
            assert_eq!(is_whitespace_char(c), c.is_whitespace(), "{:x}", code);
        }
    }
    assert!(!is_whitespace_char('\u{feff}'));
    assert!(!is_whitespace_char('\u{200b}'));
}

#[test]
fn trims_like_the_standard_library() {
    for text in ["", " ", "a", " a", "a ", "  a b  ", "\t\n x\u{a0}\u{3000}", " \u{2003} "] {
        assert_eq!(chars_string(&trim_chars(&chars(text))), text.trim(), "{:?}", text);
        assert_eq!(is_blank_str(text), text.trim().is_empty());
        let stripped: String = text.chars().filter(|c| !c.is_whitespace()).collect();
        assert_eq!(chars_string(&strip_whitespace(&chars(text))), stripped);
    }
}

#[test]
fn compares_and_searches_characters() {
    assert!(chars_are(&chars("u64"), "u64"));
    assert!(!chars_are(&chars("u64"), "u6"));
    assert!(!chars_are(&chars("u64"), "u65"));
    assert!(str_eq("", ""));
    assert!(!str_eq("a", "A"));
    assert!(contains_char(&chars("a&b"), '&'));
    assert!(!contains_char(&chars("ab"), '&'));
    assert!(starts_with_chars(&chars("0x12"), &chars("0x")));
    assert!(starts_with_chars(&chars("0x"), &chars("")));
    assert!(!starts_with_chars(&chars("0"), &chars("0x")));
    assert!(!starts_with_chars(&chars("1x"), &chars("0x")));
    assert_eq!(copy_range(&chars("abcdef"), 2, 4), chars("cd"));
    assert_eq!(copy_range(&chars("abc"), 3, 3), chars(""));
    assert_eq!(copy_bytes(&vec![1, 2, 3]), vec![1, 2, 3]);
}

#[test]
fn decimal_digits() {
    for (i, c) in "0123456789".chars().enumerate() {
        assert!(is_decimal_digit_char(c));
        assert_eq!(decimal_digit_of(c) as usize, i);
    }
    for c in ['a', '/', ':', ' ', '٣'] {
        assert!(!is_decimal_digit_char(c));
    }
}

#[test]
fn parses_indices() {
    assert_eq!(parse_index("0"), Some(0));
    assert_eq!(parse_index("0012"), Some(12));
    assert_eq!(parse_index(&usize::MAX.to_string()), Some(usize::MAX));
    assert_eq!(parse_index("18446744073709551616"), None);
    for text in ["", "+1", "-1", "1.0", " 1", "1e3"] {
        assert_eq!(parse_index(text), None);
    }
}

#[test]
fn parses_integers_like_the_standard_library() {
    let cases = [
        "0", "1", "-1", "+1", "127", "128", "-128", "-129", "255", "256", "00255", "+0", "-0",
        "32767", "32768", "-32768", "65535", "65536", "2147483647", "2147483648", "-2147483648",
        "4294967295", "4294967296", "9223372036854775807", "9223372036854775808",
        "-9223372036854775808", "-9223372036854775809", "18446744073709551615",
        "18446744073709551616", "", "+", "-", "1a", " 1", "--1", "+-1", "1_0",
    ];
    for text in cases {
        let u8_bytes = text.parse::<u8>().ok().map(|v| v.to_le_bytes().to_vec());
        assert_eq!(parse_integer(text, IntegerType::U8).map(|l| l.bytes), u8_bytes, "{}", text);
        let i8_bytes = text.parse::<i8>().ok().map(|v| v.to_le_bytes().to_vec());
        assert_eq!(parse_integer(text, IntegerType::I8).map(|l| l.bytes), i8_bytes, "{}", text);
        let u16_bytes = text.parse::<u16>().ok().map(|v| v.to_le_bytes().to_vec());
        assert_eq!(parse_integer(text, IntegerType::U16).map(|l| l.bytes), u16_bytes, "{}", text);
        let i16_bytes = text.parse::<i16>().ok().map(|v| v.to_le_bytes().to_vec());
        assert_eq!(parse_integer(text, IntegerType::I16).map(|l| l.bytes), i16_bytes, "{}", text);
        let u32_bytes = text.parse::<u32>().ok().map(|v| v.to_le_bytes().to_vec());
        assert_eq!(parse_integer(text, IntegerType::U32).map(|l| l.bytes), u32_bytes, "{}", text);
        let i32_bytes = text.parse::<i32>().ok().map(|v| v.to_le_bytes().to_vec());
        assert_eq!(parse_integer(text, IntegerType::I32).map(|l| l.bytes), i32_bytes, "{}", text);
        let u64_bytes = text.parse::<u64>().ok().map(|v| v.to_le_bytes().to_vec());
        assert_eq!(parse_integer(text, IntegerType::U64).map(|l| l.bytes), u64_bytes, "{}", text);
        let i64_bytes = text.parse::<i64>().ok().map(|v| v.to_le_bytes().to_vec());
        assert_eq!(parse_integer(text, IntegerType::I64).map(|l| l.bytes), i64_bytes, "{}", text);
        let u128_bytes = text.parse::<u128>().ok().map(|v| v.to_le_bytes().to_vec());
        assert_eq!(parse_integer(text, IntegerType::U128).map(|l| l.bytes), u128_bytes, "{}", text);
        let i128_bytes = text.parse::<i128>().ok().map(|v| v.to_le_bytes().to_vec());
        assert_eq!(parse_integer(text, IntegerType::I128).map(|l| l.bytes), i128_bytes, "{}", text);
        let i64_text = text.parse::<i64>().ok().map(|v| v.to_string());
        assert_eq!(parse_integer(text, IntegerType::I64).map(|l| l.text), i64_text, "{}", text);
        let u128_text = text.parse::<u128>().ok().map(|v| v.to_string());
        assert_eq!(parse_integer(text, IntegerType::U128).map(|l| l.text), u128_text, "{}", text);
    }
}

#[test]
fn integer_types_know_width_and_sign() {
    let all = [
        (IntegerType::U8, 1, false),
        (IntegerType::U16, 2, false),
        (IntegerType::U32, 4, false),
        (IntegerType::U64, 8, false),
        (IntegerType::U128, 16, false),
        (IntegerType::U256, 32, false),
        (IntegerType::I8, 1, true),
        (IntegerType::I16, 2, true),
        (IntegerType::I32, 4, true),
        (IntegerType::I64, 8, true),
        (IntegerType::I128, 16, true),
        (IntegerType::I256, 32, true),
    ];
    for (ty, width, signed) in all {
        assert_eq!(ty.byte_width(), width);
        assert_eq!(ty.is_signed(), signed);
    }
}
