//! What the library takes from the Move core types: identifier syntax,
//! type tags, the binary encoding of plain values and the decoding of an
//! emitted script.

use vstd::prelude::*;
use move_core_types::identifier::Identifier;
use move_core_types::language_storage::{StructTag, TypeTag};
use move_core_types::transaction_argument::TransactionArgument;
use move_core_types::value::MoveValue;
use crate::number::le_bytes;
use crate::placeholder::is_ident_char;

verus! {

/// The number of bytes on which the type tags of the Move core types hold
/// an account address.
pub const TAG_ADDRESS_LENGTH: usize = 16;

/// The largest number of elements that a serialized sequence may hold.
pub const MAX_SEQUENCE_LENGTH: usize = 0x7fff_ffff;

#[verifier::external_type_specification]
#[verifier::external_body]
pub struct ExTypeTag(move_core_types::language_storage::TypeTag);

#[verifier::external_type_specification]
#[verifier::external_body]
pub struct ExStructTag(move_core_types::language_storage::StructTag);

/// A name that Move accepts for a module, a struct or a function: a letter
/// followed by letters, digits and underscores, or an underscore followed by
/// at least one of them, or the reserved name `<SELF>`.
pub open spec fn is_identifier(s: Seq<char>) -> bool {
    ||| s == "<SELF>"@
    ||| {
        &&& s.len() >= 1
        &&& (('a' <= s[0] <= 'z') || ('A' <= s[0] <= 'Z') || (s[0] == '_' && s.len() > 1))
        &&& forall|i: int| 1 <= i < s.len() ==> is_ident_char(#[trigger] s[i])
    }
}

/// The length of a sequence as BCS writes it: seven bits per byte, the
/// least significant first, the high bit set on all bytes but the last.
pub open spec fn uleb128(v: nat) -> Seq<u8>
    decreases v,
{
    if v < 128 {
        seq![v as u8]
    } else {
        seq![(v % 128 + 128) as u8] + uleb128(v / 128)
    }
}

/// A value that is handed to the Move value serializer.
#[derive(Debug, Clone)]
pub enum WireValue {
    Bool(bool),
    U8(u8),
    U64(u64),
    U128(u128),
    Bytes(Vec<u8>),
}

impl WireValue {
    /// Whether the serializer accepts the value.
    pub open spec fn serializable(&self) -> bool {
        self matches WireValue::Bytes(bytes) ==> bytes@.len() <= MAX_SEQUENCE_LENGTH
    }

    /// The BCS encoding of the value: one byte for a boolean, the bytes of
    /// an unsigned integer from the least significant one, the length and
    /// then the bytes of a vector.
    pub open spec fn bcs_bytes(&self) -> Seq<u8> {
        match self {
            WireValue::Bool(b) => seq![if *b { 1u8 } else { 0u8 }],
            WireValue::U8(v) => le_bytes(*v as nat, 1),
            WireValue::U64(v) => le_bytes(*v as nat, 8),
            WireValue::U128(v) => le_bytes(*v as nat, 16),
            WireValue::Bytes(bytes) => uleb128(bytes@.len()) + bytes@,
        }
    }
}

/// A parsed type tag.
#[derive(Debug, PartialEq)]
pub enum TypeTagNode {
    Bool,
    U8,
    U64,
    U128,
    Address,
    Signer,
    Vector(Box<TypeTagNode>),
    Struct(StructTagNode),
}

/// A struct type: the module that declares it, its name and its type
/// arguments.
#[derive(Debug, PartialEq)]
pub struct StructTagNode {
    pub address: Vec<u8>,
    pub module: String,
    pub name: String,
    pub type_params: Vec<TypeTagNode>,
}

/// Whether every struct of `node` is held by an account address of the
/// length of the Move core types and has identifiers for its module and
/// its name.
pub open spec fn well_formed_tag(node: TypeTagNode) -> bool
    decreases node, 0nat,
{
    match node {
        TypeTagNode::Vector(inner) => well_formed_tag(*inner),
        TypeTagNode::Struct(tag) => {
            &&& tag.address@.len() == TAG_ADDRESS_LENGTH
            &&& is_identifier(tag.module@)
            &&& is_identifier(tag.name@)
            &&& well_formed_tags(tag.type_params@, tag.type_params@.len())
        },
        _ => true,
    }
}

/// Whether the first `upto` type tags of `nodes` are well formed.
pub open spec fn well_formed_tags(nodes: Seq<TypeTagNode>, upto: nat) -> bool
    decreases nodes, upto,
{
    upto == 0 || upto > nodes.len() || (well_formed_tags(nodes, (upto - 1) as nat)
        && well_formed_tag(nodes[upto - 1]))
}

/// The type tag that the Move parser reads from `text`, if it accepts it.
pub uninterp spec fn parsed_type_tag(text: Seq<char>) -> Option<TypeTagNode>;

/// `Identifier::is_valid`: whether Move accepts `text` as an identifier.
#[verifier::external_body]
pub(crate) fn is_valid_identifier(text: &str) -> (valid: bool)
    ensures
        valid == is_identifier(text@),
{
    Identifier::is_valid(text)
}

/// `MoveValue::simple_serialize`: the BCS bytes of a boolean, an unsigned
/// integer of 8, 64 or 128 bits or a byte vector; nothing for a vector
/// longer than BCS allows.
#[verifier::external_body]
pub(crate) fn serialize_move_value(value: &WireValue) -> (out: Option<Vec<u8>>)
    ensures
        match out {
            Some(bytes) => value.serializable() && bytes@ == value.bcs_bytes(),
            None => !value.serializable(),
        },
{
    let move_value = match value {
        WireValue::Bool(b) => MoveValue::Bool(*b),
        WireValue::U8(v) => MoveValue::U8(*v),
        WireValue::U64(v) => MoveValue::U64(*v),
        WireValue::U128(v) => MoveValue::U128(*v),
        WireValue::Bytes(bytes) => MoveValue::vector_u8(bytes.clone()),
    };
    move_value.simple_serialize()
}

/// Copies a struct tag of the Move core types into the library's own
/// tree, field by field.
#[verifier::external_body]
fn struct_tag_node(tag: &StructTag) -> StructTagNode {
    StructTagNode {
        address: tag.address.to_vec(),
        module: tag.module.to_string(),
        name: tag.name.to_string(),
        type_params: tag.type_params.iter().map(type_tag_node).collect(),
    }
}

/// Copies a type tag of the Move core types into the library's own tree,
/// variant by variant.
#[verifier::external_body]
fn type_tag_node(tag: &TypeTag) -> TypeTagNode {
    match tag {
        TypeTag::Bool => TypeTagNode::Bool,
        TypeTag::U8 => TypeTagNode::U8,
        TypeTag::U64 => TypeTagNode::U64,
        TypeTag::U128 => TypeTagNode::U128,
        TypeTag::Address => TypeTagNode::Address,
        TypeTag::Signer => TypeTagNode::Signer,
        TypeTag::Vector(inner) => TypeTagNode::Vector(Box::new(type_tag_node(inner))),
        TypeTag::Struct(tag) => TypeTagNode::Struct(struct_tag_node(tag)),
    }
}

/// `parser::parse_type_tag`: reads a type tag. What the parser accepts, and
/// the tag it reads, depend on the text alone. The structs of a tag that was
/// read hold an `AccountAddress` and two `Identifier`s, so their addresses
/// have the length of those and their names are identifiers.
#[verifier::external_body]
pub(crate) fn parse_type_tag(text: &str) -> (out: Option<TypeTagNode>)
    ensures
        out == parsed_type_tag(text@),
        out matches Some(node) ==> well_formed_tag(node),
{
    match move_core_types::parser::parse_type_tag(text) {
        Ok(tag) => Some(type_tag_node(&tag)),
        Err(_) => None,
    }
}

/// A script as the composition engine emits it, taken apart: its code, its
/// type arguments and the number of its arguments.
#[derive(Debug, PartialEq)]
pub struct DecodedScript {
    pub code: Vec<u8>,
    pub type_arguments: Vec<TypeTagNode>,
    pub argument_count: usize,
}

/// What the BCS decoder reads from the bytes of a script, if it accepts
/// them.
pub uninterp spec fn decoded_script(bytes: Seq<u8>) -> Option<DecodedScript>;

/// `bcs::from_bytes`, for a script: the code, the type arguments and the
/// arguments, in this order. What the decoder accepts, and what it reads,
/// depend on the bytes alone.
#[verifier::external_body]
pub(crate) fn decode_script(bytes: &Vec<u8>) -> (out: Option<DecodedScript>)
    ensures
        out == decoded_script(bytes@),
{
    match bcs::from_bytes::<(Vec<u8>, Vec<TypeTag>, Vec<TransactionArgument>)>(bytes) {
        Ok((code, tags, arguments)) => Some(
            DecodedScript {
                code,
                type_arguments: tags.iter().map(type_tag_node).collect(),
                argument_count: arguments.len(),
            },
        ),
        Err(_) => None,
    }
}

} // verus!
