//! The end of a composition: the script that the engine emitted, taken
//! apart and written as a script payload.

use vstd::prelude::*;
use vstd::string::StringExecFns;
use crate::compose::{is_script_payload, ComposeError, ComposeFault, Composition};
use crate::function_id::module_text;
use crate::json::JsonValue;
use crate::address::{address_hex_literal, short_hex_literal};
use crate::move_types::{decode_script, decoded_script, TypeTagNode};
use crate::resolve::ResolvedStep;
use crate::text::texts;

verus! {

/// The canonical text of a type tag: the lower-case name of a primitive
/// type, `vector<..>` around the element type, and for a struct
/// `address::module::name` with the address as a short hex literal,
/// followed by its type arguments between `<` and `>`, separated by a comma
/// and a space, where it has any.
pub open spec fn type_tag_text(node: TypeTagNode) -> Seq<char>
    decreases node, 0nat,
{
    match node {
        TypeTagNode::Bool => "bool"@,
        TypeTagNode::U8 => "u8"@,
        TypeTagNode::U64 => "u64"@,
        TypeTagNode::U128 => "u128"@,
        TypeTagNode::Address => "address"@,
        TypeTagNode::Signer => "signer"@,
        TypeTagNode::Vector(inner) => "vector<"@ + type_tag_text(*inner) + ">"@,
        TypeTagNode::Struct(tag) => address_hex_literal(tag.address@) + "::"@ + tag.module@
            + "::"@ + tag.name@ + (if tag.type_params@.len() == 0 {
            Seq::<char>::empty()
        } else {
            "<"@ + joined_tags(tag.type_params@, tag.type_params@.len()) + ">"@
        }),
    }
}

/// The texts of the first `upto` type tags, separated by a comma and a
/// space.
pub open spec fn joined_tags(nodes: Seq<TypeTagNode>, upto: nat) -> Seq<char>
    decreases nodes, upto,
{
    if upto == 0 || upto > nodes.len() {
        Seq::empty()
    } else if upto == 1 {
        type_tag_text(nodes[0])
    } else {
        joined_tags(nodes, (upto - 1) as nat) + ", "@ + type_tag_text(nodes[upto - 1])
    }
}

/// The texts of a list of type tags.
pub open spec fn tag_texts(nodes: Seq<TypeTagNode>) -> Seq<Seq<char>> {
    Seq::new(nodes.len(), |i: int| type_tag_text(nodes[i]))
}

/// What emitting the script payload of `composition` for the emitted
/// `script` must give: the payload of the decoded script, provided that the
/// script can be decoded and takes as many arguments as literals were
/// recorded.
pub open spec fn script_emission(
    composition: Composition,
    script: Seq<u8>,
    out: Result<JsonValue, ComposeError>,
) -> bool {
    match decoded_script(script) {
        None => out matches Err(e) && e@ == ComposeFault::UndecodableScript,
        Some(decoded) => if decoded.argument_count == composition.payload_arguments@.len() {
            out matches Ok(value) && is_script_payload(
                value,
                decoded.code@,
                tag_texts(decoded.type_arguments@),
                composition.payload_arguments@,
            )
        } else {
            out matches Err(e) && e@ == ComposeFault::ScriptArgumentMismatch {
                script: decoded.argument_count as int,
                payload: composition.payload_arguments@.len() as int,
            }
        },
    }
}

/// Appends the canonical text of `node` to `out`.
pub fn push_type_tag_text(node: &TypeTagNode, out: &mut String)
    ensures
        final(out)@ == old(out)@ + type_tag_text(*node),
    decreases node,
{
    let ghost start = out@;
    match node {
        TypeTagNode::Bool => {
            out.append("bool");
        },
        TypeTagNode::U8 => {
            out.append("u8");
        },
        TypeTagNode::U64 => {
            out.append("u64");
        },
        TypeTagNode::U128 => {
            out.append("u128");
        },
        TypeTagNode::Address => {
            out.append("address");
        },
        TypeTagNode::Signer => {
            out.append("signer");
        },
        TypeTagNode::Vector(inner) => {
            out.append("vector<");
            push_type_tag_text(inner, out);
            out.append(">");
            proof {
                assert(out@ =~= start + ("vector<"@ + type_tag_text(**inner) + ">"@));
            }
        },
        TypeTagNode::Struct(tag) => {
            let address = short_hex_literal(&tag.address);
            out.append(address.as_str());
            out.append("::");
            out.append(tag.module.as_str());
            out.append("::");
            out.append(tag.name.as_str());
            let ghost head = address_hex_literal(tag.address@) + "::"@ + tag.module@ + "::"@
                + tag.name@;
            proof {
                assert(out@ =~= start + head);
            }
            let n = tag.type_params.len();
            if n > 0 {
                out.append("<");
                let mut i: usize = 0;
                proof {
                    assert(out@ =~= start + head + "<"@ + joined_tags(tag.type_params@, 0));
                }
                while i < n
                    invariant
                        i <= n,
                        n == tag.type_params@.len(),
                        *node == TypeTagNode::Struct(*tag),
                        out@ == start + head + "<"@ + joined_tags(tag.type_params@, i as nat),
                    decreases n - i,
                {
                    let ghost before = out@;
                    if i > 0 {
                        out.append(", ");
                    }
                    proof {
                        vstd::std_specs::vec::axiom_vec_index_decreases(tag.type_params, i as int);
                        assert(node->Struct_0 == *tag);
                        assert(decreases_to!(*node => node->Struct_0));
                        assert(decreases_to!(*node => node->Struct_0.type_params));
                        assert(decreases_to!(tag.type_params => tag.type_params@[i as int]));
                        assert(decreases_to!(node => tag.type_params@[i as int]));
                    }
                    push_type_tag_text(&tag.type_params[i], out);
                    proof {
                        let item = type_tag_text(tag.type_params@[i as int]);
                        if i == 0 {
                            assert(joined_tags(tag.type_params@, 0) =~= Seq::<char>::empty());
                            assert(out@ =~= start + head + "<"@ + joined_tags(
                                tag.type_params@,
                                1,
                            ));
                        } else {
                            assert(out@ =~= start + head + "<"@ + joined_tags(
                                tag.type_params@,
                                (i + 1) as nat,
                            ));
                        }
                    }
                    i += 1;
                }
                out.append(">");
                proof {
                    assert(out@ =~= start + (head + ("<"@ + joined_tags(
                        tag.type_params@,
                        n as nat,
                    ) + ">"@)));
                }
            } else {
                proof {
                    assert(out@ =~= start + (head + Seq::<char>::empty()));
                }
            }
        },
    }
}

/// The canonical text of a type tag.
pub fn type_tag_string(node: &TypeTagNode) -> (out: String)
    ensures
        out@ == type_tag_text(*node),
{
    let mut out = String::new();
    push_type_tag_text(node, &mut out);
    proof {
        assert(Seq::<char>::empty() + type_tag_text(*node) =~= type_tag_text(*node));
    }
    out
}

fn tag_strings(nodes: &Vec<TypeTagNode>) -> (out: Vec<String>)
    ensures
        texts(out@) == tag_texts(nodes@),
{
    let mut out: Vec<String> = Vec::new();
    let mut i: usize = 0;
    while i < nodes.len()
        invariant
            i <= nodes@.len(),
            out@.len() == i,
            forall|j: int| 0 <= j < i ==> (#[trigger] out@[j])@ == type_tag_text(nodes@[j]),
        decreases nodes@.len() - i,
    {
        out.push(type_tag_string(&nodes[i]));
        i += 1;
    }
    proof {
        assert(texts(out@) =~= tag_texts(nodes@));
    }
    out
}

impl Composition {
    /// The script payload of the finished composition, for the bytes of
    /// the script that the engine emitted: the script is taken apart, its
    /// number of arguments is held against the number of literals that were
    /// recorded, and its code and type arguments are written with them.
    pub fn emit_script_payload(self, script: &Vec<u8>) -> (out: Result<JsonValue, ComposeError>)
        ensures
            script_emission(self, script@, out),
    {
        let decoded = match decode_script(script) {
            Some(decoded) => decoded,
            None => {
                return Err(ComposeError::UndecodableScript);
            },
        };
        let type_arguments = tag_strings(&decoded.type_arguments);
        self.into_script_payload(&decoded.code, type_arguments, decoded.argument_count)
    }
}

/// The error of a call that the engine refused: it names the step and the
/// function in full, and keeps what the engine said.
pub fn call_rejected(step: &ResolvedStep, reason: String) -> (error: ComposeError)
    ensures
        error@ == (ComposeFault::CallRejected {
            label: step.label@,
            function: module_text(step.function_id.module@) + seq![':', ':']
                + step.function_id.function@,
            reason: reason@,
        }),
{
    ComposeError::CallRejected {
        label: step.label.clone(),
        function: step.function_id.fully_qualified(),
        reason,
    }
}

} // verus!
