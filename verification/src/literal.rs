//! Literal arguments: reading a JSON value as a value of a Move parameter
//! type, and writing that value in the binary form that the virtual machine
//! takes and in the JSON form of a script payload.

use vstd::prelude::*;
use vstd::string::{StrSliceExecFns, StringExecFns};
use vstd::utf8::encode_utf8;
use crate::hexcodec::{hex_decode, hex_decoded, hex_encode, hex_encoded, is_hex_text};
use crate::json::JsonValue;
use crate::address::{
    address_from_hex_literal, address_from_text, address_hex_literal, hex_literal_address,
    plain_hex_address, short_hex_literal, ADDRESS_LENGTH,
};
use crate::move_types::{serialize_move_value, uleb128, WireValue, MAX_SEQUENCE_LENGTH};
use crate::number::{
    integer_bytes, integer_literal, integer_text, le_bytes, le_u128, le_u64, le_value,
    lemma_integer_bytes, lemma_literal_denotes_one, parse_integer, IntegerLiteral, IntegerType,
};
use crate::text::{
    chars_are, chars_string, contains_char, copy_bytes, copy_range, starts_with_chars,
    str_chars, strip_whitespace, trim_chars, trimmed, without_whitespace,
};

verus! {

/// The kinds of parameter types that a literal can be written for.
#[derive(Clone, Copy, Debug, PartialEq, Eq, Structural)]
pub enum LiteralFamily {
    Bool,
    Integer(IntegerType),
    Address,
    Bytes,
    Object,
    Text,
}

/// Why a literal could not be read or written.
#[derive(Debug, Clone, PartialEq, Eq)]
pub enum LiteralError {
    /// The parameter type takes no literal.
    UnsupportedType { parameter: String },
    /// The value is no JSON boolean.
    ExpectedBool,
    /// The value is no JSON string.
    ExpectedString,
    /// The value is neither a JSON number nor a JSON string.
    ExpectedNumber,
    /// The numeric string is empty or blank.
    EmptyNumber,
    /// The text is no integer of the parameter type.
    InvalidNumber { text: String },
    /// The address is no JSON string.
    ExpectedAddress,
    /// The text names no address.
    InvalidAddress { raw: String },
    /// The byte string does not begin with `0x`.
    MissingHexPrefix,
    /// The text after `0x` is not made of whole hexadecimal bytes.
    InvalidHex,
    /// The element at `index` of a byte array is no `u8` literal.
    InvalidByte { index: usize },
    /// The byte vector is neither a string nor an array.
    ExpectedBytes,
    /// The value is too large to be serialized.
    NotSerializable,
}

/// The mathematical content of a [`LiteralError`].
pub enum LiteralFault {
    UnsupportedType { parameter: Seq<char> },
    ExpectedBool,
    ExpectedString,
    ExpectedNumber,
    EmptyNumber,
    InvalidNumber { text: Seq<char> },
    ExpectedAddress,
    InvalidAddress { raw: Seq<char> },
    MissingHexPrefix,
    InvalidHex,
    InvalidByte { index: int },
    ExpectedBytes,
    NotSerializable,
}

impl View for LiteralError {
    type V = LiteralFault;

    open spec fn view(&self) -> LiteralFault {
        match self {
            LiteralError::UnsupportedType { parameter } => LiteralFault::UnsupportedType {
                parameter: parameter@,
            },
            LiteralError::ExpectedBool => LiteralFault::ExpectedBool,
            LiteralError::ExpectedString => LiteralFault::ExpectedString,
            LiteralError::ExpectedNumber => LiteralFault::ExpectedNumber,
            LiteralError::EmptyNumber => LiteralFault::EmptyNumber,
            LiteralError::InvalidNumber { text } => LiteralFault::InvalidNumber { text: text@ },
            LiteralError::ExpectedAddress => LiteralFault::ExpectedAddress,
            LiteralError::InvalidAddress { raw } => LiteralFault::InvalidAddress { raw: raw@ },
            LiteralError::MissingHexPrefix => LiteralFault::MissingHexPrefix,
            LiteralError::InvalidHex => LiteralFault::InvalidHex,
            LiteralError::InvalidByte { index } => LiteralFault::InvalidByte {
                index: *index as int,
            },
            LiteralError::ExpectedBytes => LiteralFault::ExpectedBytes,
            LiteralError::NotSerializable => LiteralFault::NotSerializable,
        }
    }
}

/// What a literal means, whatever the way it was written.
pub enum LiteralMeaning {
    Bool(bool),
    Integer(IntegerType, int),
    Address(Seq<u8>),
    Bytes(Seq<u8>),
    Text(Seq<char>),
}

/// A JSON value as a script payload holds it for a literal.
pub enum PayloadView {
    Bool(bool),
    Number(Seq<char>),
    Text(Seq<char>),
}

/// A literal that was read for a parameter type.
#[derive(Debug, Clone)]
pub enum TypedLiteral {
    Bool(bool),
    Integer(IntegerLiteral),
    Address(Vec<u8>),
    Bytes(Vec<u8>),
    Text(String),
}

impl TypedLiteral {
    /// Whether the literal stands for `meaning`.
    pub open spec fn represents(&self, meaning: LiteralMeaning) -> bool {
        match (self, meaning) {
            (TypedLiteral::Bool(b), LiteralMeaning::Bool(m)) => *b == m,
            (TypedLiteral::Integer(lit), LiteralMeaning::Integer(ty, v)) => lit.ty == ty
                && lit.denotes(v),
            (TypedLiteral::Address(bytes), LiteralMeaning::Address(m)) => bytes@ == m
                && m.len() == ADDRESS_LENGTH,
            (TypedLiteral::Bytes(bytes), LiteralMeaning::Bytes(m)) => bytes@ == m,
            (TypedLiteral::Text(text), LiteralMeaning::Text(m)) => text@ == m,
            _ => false,
        }
    }
}

/// The two characters `0x`.
pub open spec fn hex_prefix() -> Seq<char> {
    seq!['0', 'x']
}

/// A type name without the one reference marker, `&mut` or `&`, that may
/// precede it.
pub open spec fn without_reference(name: Seq<char>) -> Seq<char> {
    if seq!['&', 'm', 'u', 't'].is_prefix_of(name) {
        name.skip(4)
    } else if seq!['&'].is_prefix_of(name) {
        name.skip(1)
    } else {
        name
    }
}

/// Whether `name` is an object type: `0x1::object::Object<`, anything, `>`.
pub open spec fn is_object_name(name: Seq<char>) -> bool {
    "0x1::object::Object<"@.is_prefix_of(name) && name.len() > 0 && name.last() == '>'
}

/// Whether `name` is one of the two string wrapper types.
pub open spec fn is_string_wrapper_name(name: Seq<char>) -> bool {
    name == "0x1::string::String"@ || name == "0x1::ascii::String"@
}

/// The integer type that `name` names, if any.
pub open spec fn named_integer_type(name: Seq<char>) -> Option<IntegerType> {
    if name == "u8"@ {
        Some(IntegerType::U8)
    } else if name == "u16"@ {
        Some(IntegerType::U16)
    } else if name == "u32"@ {
        Some(IntegerType::U32)
    } else if name == "u64"@ {
        Some(IntegerType::U64)
    } else if name == "u128"@ {
        Some(IntegerType::U128)
    } else if name == "u256"@ {
        Some(IntegerType::U256)
    } else if name == "i8"@ {
        Some(IntegerType::I8)
    } else if name == "i16"@ {
        Some(IntegerType::I16)
    } else if name == "i32"@ {
        Some(IntegerType::I32)
    } else if name == "i64"@ {
        Some(IntegerType::I64)
    } else if name == "i128"@ {
        Some(IntegerType::I128)
    } else if name == "i256"@ {
        Some(IntegerType::I256)
    } else {
        None
    }
}

/// The family of the parameter type `param`: its whitespace and one leading
/// reference marker are set aside, no `&` may remain, and what is left
/// names the family.
pub open spec fn literal_family(param: Seq<char>) -> Option<LiteralFamily> {
    let name = without_reference(without_whitespace(param));
    if name.contains('&') {
        None
    } else if name == "bool"@ {
        Some(LiteralFamily::Bool)
    } else if named_integer_type(name) is Some {
        Some(LiteralFamily::Integer(named_integer_type(name)->Some_0))
    } else if name == "address"@ {
        Some(LiteralFamily::Address)
    } else if name == "vector<u8>"@ {
        Some(LiteralFamily::Bytes)
    } else if is_object_name(name) {
        Some(LiteralFamily::Object)
    } else if is_string_wrapper_name(name) {
        Some(LiteralFamily::Text)
    } else {
        None
    }
}

/// The text of a numeric literal: a JSON number as it is written, or a JSON
/// string without surrounding whitespace and without one trailing `n`.
pub open spec fn numeric_text(value: JsonValue) -> Result<Seq<char>, LiteralFault> {
    match value {
        JsonValue::String(s) => {
            let t = trimmed(s@);
            if t.len() == 0 {
                Err(LiteralFault::EmptyNumber)
            } else if t.last() == 'n' {
                Ok(t.drop_last())
            } else {
                Ok(t)
            }
        },
        JsonValue::Number(n) => Ok(n@),
        _ => Err(LiteralFault::ExpectedNumber),
    }
}

/// The integer of type `ty` that `value` denotes.
pub open spec fn integer_meaning(value: JsonValue, ty: IntegerType) -> Result<int, LiteralFault> {
    match numeric_text(value) {
        Err(fault) => Err(fault),
        Ok(text) => match integer_literal(text, ty.signed()) {
            Some(v) => if ty.holds(v) {
                Ok(v)
            } else {
                Err(LiteralFault::InvalidNumber { text })
            },
            None => Err(LiteralFault::InvalidNumber { text }),
        },
    }
}

/// The bytes that an array of `u8` literals denotes; the first element that
/// is no `u8` literal is reported by its index.
pub open spec fn byte_items(items: Seq<JsonValue>) -> Result<Seq<u8>, LiteralFault>
    decreases items.len(),
{
    if items.len() == 0 {
        Ok(Seq::empty())
    } else {
        match byte_items(items.drop_last()) {
            Err(fault) => Err(fault),
            Ok(bytes) => match integer_meaning(items.last(), IntegerType::U8) {
                Ok(v) => Ok(bytes.push(v as u8)),
                Err(_) => Err(LiteralFault::InvalidByte { index: items.len() - 1 }),
            },
        }
    }
}

/// The bytes that a byte-vector literal denotes: a string of `0x` and
/// hexadecimal bytes, or an array of `u8` literals.
pub open spec fn bytes_meaning(value: JsonValue) -> Result<Seq<u8>, LiteralFault> {
    match value {
        JsonValue::String(s) => {
            let t = trimmed(s@);
            if !hex_prefix().is_prefix_of(t) {
                Err(LiteralFault::MissingHexPrefix)
            } else if is_hex_text(t.skip(2)) {
                Ok(hex_decoded(t.skip(2)))
            } else {
                Err(LiteralFault::InvalidHex)
            }
        },
        JsonValue::Array(items) => byte_items(items@),
        _ => Err(LiteralFault::ExpectedBytes),
    }
}

/// The address that the text `raw` names: a hex literal where it begins
/// with `0x`, plain hexadecimal text of full length otherwise.
pub open spec fn address_named(raw: Seq<char>) -> Option<Seq<u8>> {
    if hex_prefix().is_prefix_of(raw) && hex_literal_address(raw) is Some {
        hex_literal_address(raw)
    } else {
        plain_hex_address(raw)
    }
}

/// The address that an address literal denotes.
pub open spec fn address_meaning(value: JsonValue) -> Result<Seq<u8>, LiteralFault> {
    match value {
        JsonValue::String(s) => match address_named(trimmed(s@)) {
            Some(bytes) => Ok(bytes),
            None => Err(LiteralFault::InvalidAddress { raw: trimmed(s@) }),
        },
        _ => Err(LiteralFault::ExpectedAddress),
    }
}

/// What `value` means as a literal of the given family.
pub open spec fn literal_meaning(family: LiteralFamily, value: JsonValue) -> Result<
    LiteralMeaning,
    LiteralFault,
> {
    match family {
        LiteralFamily::Bool => match value {
            JsonValue::Bool(b) => Ok(LiteralMeaning::Bool(b)),
            _ => Err(LiteralFault::ExpectedBool),
        },
        LiteralFamily::Integer(ty) => match integer_meaning(value, ty) {
            Ok(v) => Ok(LiteralMeaning::Integer(ty, v)),
            Err(fault) => Err(fault),
        },
        LiteralFamily::Address | LiteralFamily::Object => match address_meaning(value) {
            Ok(bytes) => Ok(LiteralMeaning::Address(bytes)),
            Err(fault) => Err(fault),
        },
        LiteralFamily::Bytes => match bytes_meaning(value) {
            Ok(bytes) => Ok(LiteralMeaning::Bytes(bytes)),
            Err(fault) => Err(fault),
        },
        LiteralFamily::Text => match value {
            JsonValue::String(s) => Ok(LiteralMeaning::Text(s@)),
            _ => Err(LiteralFault::ExpectedString),
        },
    }
}

/// What `value` means as a literal for the parameter type `param`.
pub open spec fn literal_reading(param: Seq<char>, value: JsonValue) -> Result<
    LiteralMeaning,
    LiteralFault,
> {
    match literal_family(param) {
        None => Err(LiteralFault::UnsupportedType { parameter: param }),
        Some(family) => literal_meaning(family, value),
    }
}

/// A byte vector as BCS writes it, where it is short enough.
pub open spec fn vector_encoding(bytes: Seq<u8>) -> Option<Seq<u8>> {
    if bytes.len() <= MAX_SEQUENCE_LENGTH {
        Some(uleb128(bytes.len()) + bytes)
    } else {
        None
    }
}

/// The binary form of a literal for the virtual machine: one byte for a
/// boolean, fixed-width little-endian bytes for an integer, the bytes of an
/// address, a length-prefixed vector for bytes and for the UTF-8 bytes of a
/// string.
pub open spec fn vm_encoding(meaning: LiteralMeaning) -> Option<Seq<u8>> {
    match meaning {
        LiteralMeaning::Bool(b) => Some(seq![if b { 1u8 } else { 0u8 }]),
        LiteralMeaning::Integer(ty, v) => Some(integer_bytes(ty, v)),
        LiteralMeaning::Address(bytes) => Some(bytes),
        LiteralMeaning::Bytes(bytes) => vector_encoding(bytes),
        LiteralMeaning::Text(text) => vector_encoding(encode_utf8(text)),
    }
}

/// The JSON form of a literal in a script payload: integers of 64 bits and
/// more as decimal strings, smaller ones as numbers, addresses as short hex
/// literals, bytes as `0x` and hexadecimal digits, strings as they are.
pub open spec fn payload_encoding(meaning: LiteralMeaning) -> PayloadView {
    match meaning {
        LiteralMeaning::Bool(b) => PayloadView::Bool(b),
        LiteralMeaning::Integer(ty, v) => if ty.width() >= 8 {
            PayloadView::Text(integer_text(v))
        } else {
            PayloadView::Number(integer_text(v))
        },
        LiteralMeaning::Address(bytes) => PayloadView::Text(address_hex_literal(bytes)),
        LiteralMeaning::Bytes(bytes) => PayloadView::Text(hex_prefix() + hex_encoded(bytes)),
        LiteralMeaning::Text(text) => PayloadView::Text(text),
    }
}

/// Whether the JSON value `value` is the payload form `view`.
pub open spec fn is_payload(value: JsonValue, view: PayloadView) -> bool {
    match (value, view) {
        (JsonValue::Bool(b), PayloadView::Bool(m)) => b == m,
        (JsonValue::Number(n), PayloadView::Number(m)) => n@ == m,
        (JsonValue::String(s), PayloadView::Text(m)) => s@ == m,
        _ => false,
    }
}

impl TypedLiteral {
    /// An address literal holds exactly the bytes of an address, and an
    /// integer literal as many bytes as its type is wide.
    pub open spec fn wf(&self) -> bool {
        match self {
            TypedLiteral::Address(bytes) => bytes@.len() == ADDRESS_LENGTH,
            TypedLiteral::Integer(lit) => lit.bytes@.len() == lit.ty.width(),
            _ => true,
        }
    }

    /// The binary form of the literal for the virtual machine. The Move
    /// value serializer writes what it has a value for; integers of the
    /// other widths, signed ones and addresses are written from their
    /// bytes. Fails only for bytes or text too long to be serialized.
    pub fn vm_bytes(&self) -> (out: Result<Vec<u8>, LiteralError>)
        requires
            self.wf(),
        ensures
            forall|meaning: LiteralMeaning| #[trigger]
                self.represents(meaning) ==> match vm_encoding(meaning) {
                    Some(bytes) => out matches Ok(written) && written@ == bytes,
                    None => out matches Err(e) && e@ == LiteralFault::NotSerializable,
                },
    {
        let wire = match self {
            TypedLiteral::Bool(b) => WireValue::Bool(*b),
            TypedLiteral::Integer(lit) => {
                proof {
                    assert forall|meaning: LiteralMeaning| #[trigger]
                        self.represents(meaning) implies vm_encoding(meaning) == Some(
                        lit.bytes@,
                    ) && vm_encoding(meaning) == Some(
                        le_bytes(le_value(lit.bytes@), lit.ty.width()),
                    ) by {
                        match meaning {
                            LiteralMeaning::Integer(ty, v) => {
                                lemma_integer_bytes(ty, v);
                            },
                            _ => {},
                        }
                    }
                }
                match lit.ty {
                    IntegerType::U8 => WireValue::U8(lit.bytes[0]),
                    IntegerType::U64 => WireValue::U64(le_u64(&lit.bytes)),
                    IntegerType::U128 => WireValue::U128(le_u128(&lit.bytes)),
                    _ => {
                        return Ok(copy_bytes(&lit.bytes));
                    },
                }
            },
            TypedLiteral::Address(bytes) => {
                return Ok(copy_bytes(bytes));
            },
            TypedLiteral::Bytes(bytes) => WireValue::Bytes(copy_bytes(bytes)),
            TypedLiteral::Text(text) => WireValue::Bytes(text.as_str().as_bytes_vec()),
        };
        match serialize_move_value(&wire) {
            Some(written) => Ok(written),
            None => Err(LiteralError::NotSerializable),
        }
    }

    /// The JSON form of the literal in a script payload.
    pub fn payload_value(&self) -> (out: JsonValue)
        requires
            self.wf(),
        ensures
            forall|meaning: LiteralMeaning| #[trigger]
                self.represents(meaning) ==> is_payload(out, payload_encoding(meaning)),
    {
        match self {
            TypedLiteral::Bool(b) => JsonValue::Bool(*b),
            TypedLiteral::Integer(lit) => {
                let text = lit.text.clone();
                if lit.ty.byte_width() >= 8 {
                    JsonValue::String(text)
                } else {
                    JsonValue::Number(text)
                }
            },
            TypedLiteral::Address(bytes) => JsonValue::String(short_hex_literal(bytes)),
            TypedLiteral::Bytes(bytes) => {
                let digits = hex_encode(bytes);
                let mut text = "0x".to_owned();
                text.append(digits.as_str());
                proof {
                    reveal_strlit("0x");
                    assert("0x"@ =~= hex_prefix());
                }
                JsonValue::String(text)
            },
            TypedLiteral::Text(text) => JsonValue::String(text.clone()),
        }
    }
}

/// `value` without any whitespace.
pub fn normalize_type_name(value: &str) -> (name: String)
    ensures
        name@ == without_whitespace(value@),
{
    let chars = str_chars(value);
    let stripped = strip_whitespace(&chars);
    chars_string(&stripped)
}

fn object_name(name: &Vec<char>) -> (r: bool)
    ensures
        r == is_object_name(name@),
{
    let prefix = str_chars("0x1::object::Object<");
    starts_with_chars(name, &prefix) && name.len() > 0 && name[name.len() - 1] == '>'
}

fn string_wrapper_name(name: &Vec<char>) -> (r: bool)
    ensures
        r == is_string_wrapper_name(name@),
{
    chars_are(name, "0x1::string::String") || chars_are(name, "0x1::ascii::String")
}

/// Whether `value` is an object type: `0x1::object::Object<`, anything, `>`.
pub fn is_object_type(value: &str) -> (r: bool)
    ensures
        r == is_object_name(value@),
{
    let chars = str_chars(value);
    object_name(&chars)
}

/// Whether `value` is one of the two string wrapper types.
pub fn is_string_wrapper_type(value: &str) -> (r: bool)
    ensures
        r == is_string_wrapper_name(value@),
{
    let chars = str_chars(value);
    string_wrapper_name(&chars)
}

fn integer_type_of(name: &Vec<char>) -> (ty: Option<IntegerType>)
    ensures
        ty == named_integer_type(name@),
{
    if chars_are(name, "u8") {
        Some(IntegerType::U8)
    } else if chars_are(name, "u16") {
        Some(IntegerType::U16)
    } else if chars_are(name, "u32") {
        Some(IntegerType::U32)
    } else if chars_are(name, "u64") {
        Some(IntegerType::U64)
    } else if chars_are(name, "u128") {
        Some(IntegerType::U128)
    } else if chars_are(name, "u256") {
        Some(IntegerType::U256)
    } else if chars_are(name, "i8") {
        Some(IntegerType::I8)
    } else if chars_are(name, "i16") {
        Some(IntegerType::I16)
    } else if chars_are(name, "i32") {
        Some(IntegerType::I32)
    } else if chars_are(name, "i64") {
        Some(IntegerType::I64)
    } else if chars_are(name, "i128") {
        Some(IntegerType::I128)
    } else if chars_are(name, "i256") {
        Some(IntegerType::I256)
    } else {
        None
    }
}

fn drop_reference(name: &Vec<char>) -> (out: Vec<char>)
    ensures
        out@ == without_reference(name@),
{
    let marker: Vec<char> = vec!['&', 'm', 'u', 't'];
    let ampersand: Vec<char> = vec!['&'];
    assert(marker@ =~= seq!['&', 'm', 'u', 't']);
    assert(ampersand@ =~= seq!['&']);
    if starts_with_chars(name, &marker) {
        let out = copy_range(name, 4, name.len());
        assert(name@.subrange(4, name@.len() as int) =~= name@.skip(4));
        out
    } else if starts_with_chars(name, &ampersand) {
        let out = copy_range(name, 1, name.len());
        assert(name@.subrange(1, name@.len() as int) =~= name@.skip(1));
        out
    } else {
        let out = copy_range(name, 0, name.len());
        assert(name@.subrange(0, name@.len() as int) =~= name@);
        out
    }
}

/// The family of the parameter type `expected_param`, if it takes literals.
pub fn classify_parameter_type(expected_param: &str) -> (family: Option<LiteralFamily>)
    ensures
        family == literal_family(expected_param@),
{
    let chars = str_chars(expected_param);
    let stripped = strip_whitespace(&chars);
    let name = drop_reference(&stripped);
    if contains_char(&name, '&') {
        return None;
    }
    if chars_are(&name, "bool") {
        return Some(LiteralFamily::Bool);
    }
    if let Some(ty) = integer_type_of(&name) {
        return Some(LiteralFamily::Integer(ty));
    }
    if chars_are(&name, "address") {
        Some(LiteralFamily::Address)
    } else if chars_are(&name, "vector<u8>") {
        Some(LiteralFamily::Bytes)
    } else if object_name(&name) {
        Some(LiteralFamily::Object)
    } else if string_wrapper_name(&name) {
        Some(LiteralFamily::Text)
    } else {
        None
    }
}

/// Reads a boolean literal.
pub fn parse_bool_literal(value: &JsonValue) -> (out: Result<bool, LiteralError>)
    ensures
        match *value {
            JsonValue::Bool(b) => out == Ok::<bool, LiteralError>(b),
            _ => out matches Err(e) && e@ == LiteralFault::ExpectedBool,
        },
{
    match value {
        JsonValue::Bool(b) => Ok(*b),
        _ => Err(LiteralError::ExpectedBool),
    }
}

/// Reads a string literal.
pub fn parse_string_literal(value: &JsonValue) -> (out: Result<String, LiteralError>)
    ensures
        match *value {
            JsonValue::String(s) => out matches Ok(text) && text@ == s@,
            _ => out matches Err(e) && e@ == LiteralFault::ExpectedString,
        },
{
    match value {
        JsonValue::String(s) => Ok(s.clone()),
        _ => Err(LiteralError::ExpectedString),
    }
}

/// The text of a numeric literal: a number as it is written, or a string
/// without surrounding whitespace and without one trailing `n`.
pub fn normalize_numeric_literal(value: &JsonValue) -> (out: Result<String, LiteralError>)
    ensures
        match numeric_text(*value) {
            Ok(text) => out matches Ok(found) && found@ == text,
            Err(fault) => out matches Err(e) && e@ == fault,
        },
{
    match value {
        JsonValue::String(s) => {
            let chars = str_chars(s.as_str());
            let t = trim_chars(&chars);
            if t.len() == 0 {
                return Err(LiteralError::EmptyNumber);
            }
            if t[t.len() - 1] == 'n' {
                let kept = copy_range(&t, 0, t.len() - 1);
                assert(t@.subrange(0, t@.len() - 1) =~= t@.drop_last());
                Ok(chars_string(&kept))
            } else {
                Ok(chars_string(&t))
            }
        },
        JsonValue::Number(n) => Ok(n.clone()),
        _ => Err(LiteralError::ExpectedNumber),
    }
}

/// Reads an integer literal of the type `ty`.
pub fn parse_number(value: &JsonValue, ty: IntegerType) -> (out: Result<
    IntegerLiteral,
    LiteralError,
>)
    ensures
        match integer_meaning(*value, ty) {
            Ok(v) => out matches Ok(lit) && lit.ty == ty && lit.denotes(v),
            Err(fault) => out matches Err(e) && e@ == fault,
        },
{
    let text = match normalize_numeric_literal(value) {
        Ok(text) => text,
        Err(e) => {
            return Err(e);
        },
    };
    match parse_integer(text.as_str(), ty) {
        Some(lit) => Ok(lit),
        None => Err(LiteralError::InvalidNumber { text }),
    }
}

/// An element that is no byte makes the whole array fail, whatever follows.
proof fn lemma_byte_items_prefix_error(items: Seq<JsonValue>, k: int)
    requires
        0 <= k <= items.len(),
        byte_items(items.take(k)) is Err,
    ensures
        byte_items(items) == byte_items(items.take(k)),
    decreases items.len(),
{
    if k == items.len() {
        assert(items.take(k) =~= items);
    } else {
        assert(items.drop_last().take(k) =~= items.take(k));
        lemma_byte_items_prefix_error(items.drop_last(), k);
    }
}

/// Reads a byte-vector literal: a string of `0x` and hexadecimal digits, or
/// an array of `u8` literals.
pub fn parse_bytes_literal(value: &JsonValue) -> (out: Result<Vec<u8>, LiteralError>)
    ensures
        match bytes_meaning(*value) {
            Ok(bytes) => out matches Ok(found) && found@ == bytes,
            Err(fault) => out matches Err(e) && e@ == fault,
        },
{
    match value {
        JsonValue::String(s) => {
            let chars = str_chars(s.as_str());
            let t = trim_chars(&chars);
            let prefix: Vec<char> = vec!['0', 'x'];
            assert(prefix@ =~= hex_prefix());
            if !starts_with_chars(&t, &prefix) {
                return Err(LiteralError::MissingHexPrefix);
            }
            let digits = copy_range(&t, 2, t.len());
            assert(t@.subrange(2, t@.len() as int) =~= t@.skip(2));
            let digits_text = chars_string(&digits);
            match hex_decode(digits_text.as_str()) {
                Some(bytes) => Ok(bytes),
                None => Err(LiteralError::InvalidHex),
            }
        },
        JsonValue::Array(items) => {
            let mut bytes: Vec<u8> = Vec::new();
            let mut i: usize = 0;
            proof {
                assert(items@.take(0) =~= Seq::<JsonValue>::empty());
            }
            while i < items.len()
                invariant
                    i <= items@.len(),
                    *value == JsonValue::Array(*items),
                    byte_items(items@.take(i as int)) == Ok::<Seq<u8>, LiteralFault>(bytes@),
                decreases items@.len() - i,
            {
                proof {
                    assert(items@.take(i + 1).drop_last() =~= items@.take(i as int));
                    assert(items@.take(i + 1).last() == items@[i as int]);
                }
                match parse_number(&items[i], IntegerType::U8) {
                    Ok(lit) => {
                        proof {
                            let v = integer_meaning(items@[i as int], IntegerType::U8)->Ok_0;
                            lemma_integer_bytes(IntegerType::U8, v);
                            reveal_with_fuel(le_bytes, 2);
                            assert(lit.bytes@[0] == v as u8);
                        }
                        bytes.push(lit.bytes[0]);
                    },
                    Err(_) => {
                        proof {
                            assert(byte_items(items@.take(i + 1)) == Err::<
                                Seq<u8>,
                                LiteralFault,
                            >(LiteralFault::InvalidByte { index: i as int }));
                            lemma_byte_items_prefix_error(items@, i + 1);
                        }
                        return Err(LiteralError::InvalidByte { index: i });
                    },
                }
                i += 1;
            }
            proof {
                assert(items@.take(items@.len() as int) =~= items@);
            }
            Ok(bytes)
        },
        _ => Err(LiteralError::ExpectedBytes),
    }
}

/// Reads an address literal: a hex literal where it begins with `0x`, plain
/// hexadecimal text of full length otherwise. Gives the bytes of the
/// address.
pub fn parse_address_literal(value: &JsonValue) -> (out: Result<Vec<u8>, LiteralError>)
    ensures
        match address_meaning(*value) {
            Ok(bytes) => out matches Ok(found) && found@ == bytes && bytes.len()
                == ADDRESS_LENGTH,
            Err(fault) => out matches Err(e) && e@ == fault,
        },
{
    match value {
        JsonValue::String(s) => {
            let chars = str_chars(s.as_str());
            let t = trim_chars(&chars);
            let raw = chars_string(&t);
            let prefix: Vec<char> = vec!['0', 'x'];
            assert(prefix@ =~= hex_prefix());
            if starts_with_chars(&t, &prefix) {
                if let Some(bytes) = address_from_hex_literal(raw.as_str()) {
                    return Ok(bytes);
                }
            }
            match address_from_text(raw.as_str()) {
                Some(bytes) => Ok(bytes),
                None => Err(LiteralError::InvalidAddress { raw }),
            }
        },
        _ => Err(LiteralError::ExpectedAddress),
    }
}

/// Reads `value` as a literal for the parameter type `expected_param`.
pub fn read_literal(expected_param: &str, value: &JsonValue) -> (out: Result<
    TypedLiteral,
    LiteralError,
>)
    ensures
        match literal_reading(expected_param@, *value) {
            Ok(meaning) => out matches Ok(literal) && literal.wf() && literal.represents(meaning),
            Err(fault) => out matches Err(e) && e@ == fault,
        },
{
    let family = match classify_parameter_type(expected_param) {
        Some(family) => family,
        None => {
            return Err(LiteralError::UnsupportedType { parameter: expected_param.to_owned() });
        },
    };
    match family {
        LiteralFamily::Bool => match parse_bool_literal(value) {
            Ok(b) => Ok(TypedLiteral::Bool(b)),
            Err(e) => Err(e),
        },
        LiteralFamily::Integer(ty) => match parse_number(value, ty) {
            Ok(lit) => {
                proof {
                    lemma_integer_bytes(ty, integer_meaning(*value, ty)->Ok_0);
                }
                Ok(TypedLiteral::Integer(lit))
            },
            Err(e) => Err(e),
        },
        LiteralFamily::Address | LiteralFamily::Object => match parse_address_literal(value) {
            Ok(bytes) => Ok(TypedLiteral::Address(bytes)),
            Err(e) => Err(e),
        },
        LiteralFamily::Bytes => match parse_bytes_literal(value) {
            Ok(bytes) => Ok(TypedLiteral::Bytes(bytes)),
            Err(e) => Err(e),
        },
        LiteralFamily::Text => match parse_string_literal(value) {
            Ok(text) => Ok(TypedLiteral::Text(text)),
            Err(e) => Err(e),
        },
    }
}

/// Encodes `value` in the binary form that the virtual machine takes for an
/// argument of the parameter type `expected_param`.
pub fn encode_literal(expected_param: &str, value: &JsonValue) -> (out: Result<
    Vec<u8>,
    LiteralError,
>)
    ensures
        match literal_reading(expected_param@, *value) {
            Ok(meaning) => match vm_encoding(meaning) {
                Some(bytes) => out matches Ok(written) && written@ == bytes,
                None => out matches Err(e) && e@ == LiteralFault::NotSerializable,
            },
            Err(fault) => out matches Err(e) && e@ == fault,
        },
{
    match read_literal(expected_param, value) {
        Ok(literal) => literal.vm_bytes(),
        Err(e) => Err(e),
    }
}

/// Writes `value` in the JSON form that a script payload holds for an
/// argument of the parameter type `expected_param`.
pub fn normalize_literal_for_script_payload(expected_param: &str, value: &JsonValue) -> (out:
    Result<JsonValue, LiteralError>)
    ensures
        match literal_reading(expected_param@, *value) {
            Ok(meaning) => out matches Ok(written) && is_payload(
                written,
                payload_encoding(meaning),
            ),
            Err(fault) => out matches Err(e) && e@ == fault,
        },
{
    match read_literal(expected_param, value) {
        Ok(literal) => Ok(literal.payload_value()),
        Err(e) => Err(e),
    }
}

/// An object parameter reads its literal as an address parameter does, so
/// both forms of the literal are those of the address.
pub proof fn lemma_object_reads_as_address(value: JsonValue)
    ensures
        literal_meaning(LiteralFamily::Object, value) == literal_meaning(
            LiteralFamily::Address,
            value,
        ),
{
}

/// A numeric string with a trailing `n` reads as the number that is
/// written before the `n`.
pub proof fn lemma_bigint_suffix(text: String, number: String, ty: IntegerType)
    requires
        number@.len() > 0,
        trimmed(text@) == number@.push('n'),
    ensures
        integer_meaning(JsonValue::String(text), ty) == integer_meaning(
            JsonValue::Number(number),
            ty,
        ),
{
    assert(number@.push('n').drop_last() =~= number@);
}

/// A literal stands for one meaning only.
pub proof fn lemma_represents_one(literal: TypedLiteral, x: LiteralMeaning, y: LiteralMeaning)
    requires
        literal.represents(x),
        literal.represents(y),
    ensures
        x == y,
{
    match (x, y) {
        (LiteralMeaning::Integer(_, v), LiteralMeaning::Integer(_, w)) => {
            lemma_literal_denotes_one(literal->Integer_0, v, w);
        },
        (LiteralMeaning::Address(p), LiteralMeaning::Address(q)) => {
            assert(p =~= q);
        },
        (LiteralMeaning::Bytes(p), LiteralMeaning::Bytes(q)) => {
            assert(p =~= q);
        },
        (LiteralMeaning::Text(p), LiteralMeaning::Text(q)) => {
            assert(p =~= q);
        },
        _ => {},
    }
}

/// The two forms of a literal are kept in step: whenever the binary form
/// can be written, so can the payload form, and whenever the payload form
/// cannot, the binary form fails for the same reason.
pub proof fn lemma_forms_in_step(
    param: Seq<char>,
    value: JsonValue,
    binary: Result<Vec<u8>, LiteralError>,
    payload: Result<JsonValue, LiteralError>,
)
    requires
        match literal_reading(param, value) {
            Ok(meaning) => match vm_encoding(meaning) {
                Some(bytes) => binary matches Ok(written) && written@ == bytes,
                None => binary matches Err(e) && e@ == LiteralFault::NotSerializable,
            },
            Err(fault) => binary matches Err(e) && e@ == fault,
        },
        match literal_reading(param, value) {
            Ok(meaning) => payload matches Ok(written) && is_payload(
                written,
                payload_encoding(meaning),
            ),
            Err(fault) => payload matches Err(e) && e@ == fault,
        },
    ensures
        binary is Ok ==> payload is Ok,
        payload is Err ==> binary is Err && binary->Err_0@ == payload->Err_0@,
{
}

/// An address literal that can be read names exactly the bytes of an
/// address.
pub proof fn lemma_address_is_full_length(value: JsonValue)
    requires
        address_meaning(value) is Ok,
    ensures
        address_meaning(value)->Ok_0.len() == ADDRESS_LENGTH,
{
}

/// For an object parameter and an address parameter, a literal is refused
/// for the same reason or written as the same bytes, as many as an address
/// holds.
pub proof fn lemma_object_encodes_as_address(
    object_param: Seq<char>,
    address_param: Seq<char>,
    value: JsonValue,
)
    requires
        literal_family(object_param) == Some(LiteralFamily::Object),
        literal_family(address_param) == Some(LiteralFamily::Address),
    ensures
        literal_reading(object_param, value) == literal_reading(address_param, value),
        literal_reading(object_param, value) matches Ok(meaning) ==> vm_encoding(meaning) is Some
            && vm_encoding(meaning)->Some_0.len() == ADDRESS_LENGTH,
{
}

} // verus!
