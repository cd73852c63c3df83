//! The modules that a list of steps needs: those of the called functions
//! and those of every struct named in a type argument.

use vstd::prelude::*;
use crate::address::{widen_address, widened_address};
use crate::function_id::{ModuleKey, ModuleKeyView};
use crate::move_types::{
    parse_type_tag, parsed_type_tag, well_formed_tag, well_formed_tags, TypeTagNode,
};
use crate::resolve::{first_invalid_tag, ResolveError, ResolveFault, ResolvedStep};
use crate::text::{copy_bytes, str_eq};

verus! {

/// The modules of the structs of `node`, each struct before its type
/// arguments, those from left to right. The address of a struct is written
/// on the full length of an account address.
pub open spec fn struct_modules(node: TypeTagNode) -> Seq<ModuleKeyView>
    decreases node, 0nat,
{
    match node {
        TypeTagNode::Vector(inner) => struct_modules(*inner),
        TypeTagNode::Struct(tag) => seq![
            ModuleKeyView { address: widened_address(tag.address@), name: tag.module@ },
        ] + list_modules(tag.type_params@, tag.type_params@.len()),
        _ => Seq::empty(),
    }
}

/// The modules of the structs of the first `upto` type tags of `nodes`.
pub open spec fn list_modules(nodes: Seq<TypeTagNode>, upto: nat) -> Seq<ModuleKeyView>
    decreases nodes, upto,
{
    if upto == 0 || upto > nodes.len() {
        Seq::empty()
    } else {
        list_modules(nodes, (upto - 1) as nat) + struct_modules(nodes[upto - 1])
    }
}

/// The contents of a list of module keys.
pub open spec fn key_views(keys: Seq<ModuleKey>) -> Seq<ModuleKeyView> {
    Seq::new(keys.len(), |i: int| keys[i]@)
}

/// Whether every key of the list is well formed.
pub open spec fn keys_wf(keys: Seq<ModuleKey>) -> bool {
    forall|i: int| 0 <= i < keys.len() ==> (#[trigger] keys[i]).wf()
}

/// The modules of the structs of the first `upto` type arguments, which
/// must all be type tags.
pub open spec fn tag_modules(tags: Seq<String>, upto: nat) -> Seq<ModuleKeyView>
    decreases upto,
{
    if upto == 0 || upto > tags.len() {
        Seq::empty()
    } else {
        tag_modules(tags, (upto - 1) as nat) + struct_modules(
            parsed_type_tag(tags[upto - 1]@)->Some_0,
        )
    }
}

/// The modules that one step needs, in the order in which they are met:
/// the module of its function, then those of its type arguments.
pub open spec fn step_modules(step: ResolvedStep) -> Seq<ModuleKeyView> {
    seq![step.function_id.module@] + tag_modules(
        step.type_arguments@,
        step.type_arguments@.len(),
    )
}

/// The modules that the first `upto` steps need, with repetitions.
pub open spec fn steps_modules(steps: Seq<ResolvedStep>, upto: nat) -> Seq<ModuleKeyView>
    decreases upto,
{
    if upto == 0 || upto > steps.len() {
        Seq::empty()
    } else {
        steps_modules(steps, (upto - 1) as nat) + step_modules(steps[upto - 1])
    }
}

/// `keys` without repetitions: each key where it first occurs.
pub open spec fn first_come(keys: Seq<ModuleKeyView>) -> Seq<ModuleKeyView>
    decreases keys.len(),
{
    if keys.len() == 0 {
        Seq::empty()
    } else {
        let before = first_come(keys.drop_last());
        if before.contains(keys.last()) {
            before
        } else {
            before.push(keys.last())
        }
    }
}

/// The position of the first step at or after `from` one of whose type
/// arguments is no type tag, or the number of steps when there is none.
pub open spec fn first_untagged_step(steps: Seq<ResolvedStep>, from: int) -> int
    decreases steps.len() - from,
{
    if 0 <= from < steps.len() && first_invalid_tag(steps[from].type_arguments@, 0)
        >= steps[from].type_arguments@.len() {
        first_untagged_step(steps, from + 1)
    } else {
        from
    }
}

/// What collecting the modules of `steps` must give.
pub open spec fn module_collection(
    steps: Seq<ResolvedStep>,
    out: Result<Vec<ModuleKey>, ResolveError>,
) -> bool {
    let k = first_untagged_step(steps, 0);
    match out {
        Ok(modules) => {
            &&& k >= steps.len()
            &&& key_views(modules@) == first_come(steps_modules(steps, steps.len()))
            &&& keys_wf(modules@)
        },
        Err(e) => {
            &&& k < steps.len()
            &&& e@ == ResolveFault::InvalidTypeArgument {
                label: steps[k].label@,
                type_argument: steps[k].type_arguments@[first_invalid_tag(
                    steps[k].type_arguments@,
                    0,
                )]@,
            }
        },
    }
}

/// A list without repetitions holds the keys of the list it was made from.
pub proof fn lemma_first_come_contains(keys: Seq<ModuleKeyView>, k: ModuleKeyView)
    ensures
        first_come(keys).contains(k) <==> keys.contains(k),
    decreases keys.len(),
{
    if keys.len() > 0 {
        let init = keys.drop_last();
        let last = keys.last();
        let before = first_come(init);
        let after = first_come(keys);
        lemma_first_come_contains(init, k);
        lemma_first_come_contains(init, last);
        if keys.contains(k) {
            let i = choose|i: int| 0 <= i < keys.len() && keys[i] == k;
            if i < keys.len() - 1 {
                assert(init[i] == k);
                assert(init.contains(k));
                let j = choose|j: int| 0 <= j < before.len() && before[j] == k;
                assert(after[j] == k);
            } else if before.contains(last) {
                assert(after.contains(k));
            } else {
                assert(after[before.len() as int] == last);
            }
        }
        if after.contains(k) {
            let j = choose|j: int| 0 <= j < after.len() && after[j] == k;
            if j < before.len() {
                assert(before[j] == k);
                assert(before.contains(k));
                let i = choose|i: int| 0 <= i < init.len() && init[i] == k;
                assert(keys[i] == k);
            } else {
                assert(keys[keys.len() - 1] == k);
            }
        }
    }
}

/// No key occurs twice in a list without repetitions.
pub proof fn lemma_first_come_distinct(keys: Seq<ModuleKeyView>)
    ensures
        first_come(keys).no_duplicates(),
    decreases keys.len(),
{
    if keys.len() > 0 {
        lemma_first_come_distinct(keys.drop_last());
    }
}

fn bytes_equal(a: &Vec<u8>, b: &Vec<u8>) -> (r: bool)
    ensures
        r == (a@ == b@),
{
    if a.len() != b.len() {
        return false;
    }
    let mut i: usize = 0;
    while i < a.len()
        invariant
            i <= a@.len(),
            a@.len() == b@.len(),
            forall|j: int| 0 <= j < i ==> a@[j] == b@[j],
        decreases a@.len() - i,
    {
        if a[i] != b[i] {
            return false;
        }
        i += 1;
    }
    proof {
        assert(a@ =~= b@);
    }
    true
}

/// Whether two keys name the same module.
pub fn same_module(a: &ModuleKey, b: &ModuleKey) -> (r: bool)
    ensures
        r == (a@ == b@),
{
    bytes_equal(&a.address, &b.address) && str_eq(a.name.as_str(), b.name.as_str())
}

/// Appends the modules of the structs of `node` to `out`.
fn push_struct_modules(node: &TypeTagNode, out: &mut Vec<ModuleKey>)
    requires
        well_formed_tag(*node),
        keys_wf(old(out)@),
    ensures
        key_views(final(out)@) == key_views(old(out)@) + struct_modules(*node),
        keys_wf(final(out)@),
    decreases node,
{
    match node {
        TypeTagNode::Vector(inner) => {
            push_struct_modules(inner, out);
        },
        TypeTagNode::Struct(tag) => {
            let ghost start = out@;
            let key = ModuleKey { address: widen_address(&tag.address), name: tag.module.clone() };
            out.push(key);
            let n = tag.type_params.len();
            let mut i: usize = 0;
            proof {
                assert(key_views(out@) =~= key_views(start) + seq![key@] + list_modules(
                    tag.type_params@,
                    0,
                ));
            }
            while i < n
                invariant
                    i <= n,
                    n == tag.type_params@.len(),
                    *node == TypeTagNode::Struct(*tag),
                    well_formed_tags(tag.type_params@, n as nat),
                    keys_wf(out@),
                    key_views(out@) == key_views(start) + seq![key@] + list_modules(
                        tag.type_params@,
                        i as nat,
                    ),
                decreases n - i,
            {
                proof {
                    lemma_well_formed_tags(tag.type_params@, n as nat, i as int);
                    vstd::std_specs::vec::axiom_vec_index_decreases(tag.type_params, i as int);
                    assert(node->Struct_0 == *tag);
                    assert(decreases_to!(*node => node->Struct_0));
                    assert(decreases_to!(*node => node->Struct_0.type_params));
                    assert(decreases_to!(tag.type_params => tag.type_params@[i as int]));
                    assert(decreases_to!(node => tag.type_params@[i as int]));
                }
                push_struct_modules(&tag.type_params[i], out);
                proof {
                    assert(key_views(out@) =~= key_views(start) + seq![key@] + list_modules(
                        tag.type_params@,
                        (i + 1) as nat,
                    ));
                }
                i += 1;
            }
            proof {
                assert(key_views(out@) =~= key_views(start) + struct_modules(*node));
            }
        },
        _ => {
            proof {
                assert(key_views(out@) + Seq::<ModuleKeyView>::empty() =~= key_views(out@));
            }
        },
    }
}

/// The modules of the structs of `node`, each struct before its type
/// arguments, those from left to right; a module is listed as often as it
/// is met.
pub fn modules_of_tag(node: &TypeTagNode) -> (out: Vec<ModuleKey>)
    requires
        well_formed_tag(*node),
    ensures
        key_views(out@) == struct_modules(*node),
        keys_wf(out@),
{
    let mut out: Vec<ModuleKey> = Vec::new();
    push_struct_modules(node, &mut out);
    proof {
        assert(key_views(Seq::<ModuleKey>::empty()) + struct_modules(*node) =~= struct_modules(
            *node,
        ));
    }
    out
}

/// Every one of the first `upto` well-formed tags is well formed.
proof fn lemma_well_formed_tags(nodes: Seq<TypeTagNode>, upto: nat, i: int)
    requires
        upto <= nodes.len(),
        well_formed_tags(nodes, upto),
        0 <= i < upto,
    ensures
        well_formed_tag(nodes[i]),
    decreases upto,
{
    if i < upto - 1 {
        lemma_well_formed_tags(nodes, (upto - 1) as nat, i);
    }
}

fn holds_module(keys: &Vec<ModuleKey>, key: &ModuleKey) -> (r: bool)
    ensures
        r == key_views(keys@).contains(key@),
{
    let mut i: usize = 0;
    while i < keys.len()
        invariant
            i <= keys@.len(),
            forall|j: int| 0 <= j < i ==> key_views(keys@)[j] != key@,
        decreases keys@.len() - i,
    {
        if same_module(&keys[i], key) {
            assert(key_views(keys@)[i as int] == key@);
            return true;
        }
        i += 1;
    }
    false
}

/// `keys` without repetitions: each key where it first occurs.
fn without_repetitions(keys: Vec<ModuleKey>) -> (out: Vec<ModuleKey>)
    requires
        keys_wf(keys@),
    ensures
        key_views(out@) == first_come(key_views(keys@)),
        keys_wf(out@),
{
    let ghost all = keys@;
    let mut out: Vec<ModuleKey> = Vec::new();
    proof {
        assert(key_views(all).take(0) =~= Seq::<ModuleKeyView>::empty());
        assert(key_views(out@) =~= Seq::<ModuleKeyView>::empty());
    }
    for key in it: keys
        invariant
            it.seq() == all,
            keys_wf(all),
            keys_wf(out@),
            key_views(out@) == first_come(key_views(all).take(it.index() as int)),
    {
        let ghost i = it.index() as int;
        let ghost before = out@;
        proof {
            assert(key_views(all).take(i + 1).drop_last() =~= key_views(all).take(i));
            assert(key_views(all).take(i + 1).last() == key@);
        }
        if !holds_module(&out, &key) {
            out.push(key);
            proof {
                assert(key_views(out@) =~= key_views(before).push(key@));
            }
        }
    }
    proof {
        assert(key_views(all).take(all.len() as int) =~= key_views(all));
    }
    out
}

/// The modules that `steps` need, each once, in the order in which they are
/// first met: for every step the module of its function, then the modules
/// of the structs of its type arguments. Fails at the first type argument
/// that is no type tag.
#[verifier::loop_isolation(false)]
pub fn collect_required_modules(steps: &[ResolvedStep]) -> (out: Result<
    Vec<ModuleKey>,
    ResolveError,
>)
    requires
        forall|k: int| 0 <= k < steps@.len() ==> (#[trigger] steps@[k]).function_id.module.wf(),
    ensures
        module_collection(steps@, out),
{
    let mut raw: Vec<ModuleKey> = Vec::new();
    let mut k: usize = 0;
    proof {
        assert(key_views(raw@) =~= steps_modules(steps@, 0));
    }
    while k < steps.len()
        invariant
            k <= steps@.len(),
            keys_wf(raw@),
            key_views(raw@) == steps_modules(steps@, k as nat),
            first_untagged_step(steps@, 0) == first_untagged_step(steps@, k as int),
        decreases steps@.len() - k,
    {
        let step = &steps[k];
        let ghost start = raw@;
        let key = ModuleKey {
            address: copy_bytes(&step.function_id.module.address),
            name: step.function_id.module.name.clone(),
        };
        assert(key@ == step.function_id.module@);
        raw.push(key);
        let mut t: usize = 0;
        proof {
            assert(key_views(raw@) =~= key_views(start) + seq![step.function_id.module@]
                + tag_modules(step.type_arguments@, 0));
        }
        while t < step.type_arguments.len()
            invariant
                t <= step.type_arguments@.len(),
                keys_wf(raw@),
                first_invalid_tag(step.type_arguments@, 0) == first_invalid_tag(
                    step.type_arguments@,
                    t as int,
                ),
                key_views(raw@) == key_views(start) + seq![step.function_id.module@]
                    + tag_modules(step.type_arguments@, t as nat),
            decreases step.type_arguments@.len() - t,
        {
            match parse_type_tag(step.type_arguments[t].as_str()) {
                Some(node) => {
                    push_struct_modules(&node, &mut raw);
                    proof {
                        assert(key_views(raw@) =~= key_views(start) + seq![
                            step.function_id.module@,
                        ] + tag_modules(step.type_arguments@, (t + 1) as nat));
                    }
                },
                None => {
                    return Err(
                        ResolveError::InvalidTypeArgument {
                            label: step.label.clone(),
                            type_argument: step.type_arguments[t].clone(),
                        },
                    );
                },
            }
            t += 1;
        }
        proof {
            assert(key_views(raw@) =~= steps_modules(steps@, (k + 1) as nat));
        }
        k += 1;
    }
    Ok(without_repetitions(raw))
}

} // verus!
