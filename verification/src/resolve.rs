//! Step resolution: labels, function identifiers, type arguments and the
//! references between steps.

use vstd::prelude::*;
use crate::function_id::{function_id_of, FunctionId, FunctionIdFault};
use crate::move_types::{parse_type_tag, parsed_type_tag};
use crate::payload::{ArgInput, StepInput};
use crate::text::{chars_string, str_chars, str_eq, trim_chars, trimmed};

verus! {

/// A step whose declarations were checked.
#[derive(Debug, PartialEq)]
pub struct ResolvedStep {
    pub label: String,
    pub function_id: FunctionId,
    pub type_arguments: Vec<String>,
    pub args: Vec<ArgInput>,
}

/// Why a list of steps could not be resolved.
#[derive(Debug, Clone, PartialEq, Eq)]
pub enum ResolveError {
    /// The payload holds no step.
    EmptyPayload,
    /// The label of the step at `index` is empty or blank.
    EmptyLabel { index: usize },
    /// An earlier step has the same label.
    DuplicateLabel { label: String },
    /// The function of the step `label` is no function identifier.
    InvalidFunctionId { label: String, function: String, fault: FunctionIdFault },
    /// A type argument of the step `label` is no type tag.
    InvalidTypeArgument { label: String, type_argument: String },
    /// The argument `arg_index` of the step `label` refers to `reference`,
    /// which is no label of an earlier step.
    UnknownReference { label: String, arg_index: usize, reference: String },
}

/// The mathematical content of a [`ResolveError`].
pub enum ResolveFault {
    EmptyPayload,
    EmptyLabel { index: int },
    DuplicateLabel { label: Seq<char> },
    InvalidFunctionId { label: Seq<char>, function: Seq<char>, fault: FunctionIdFault },
    InvalidTypeArgument { label: Seq<char>, type_argument: Seq<char> },
    UnknownReference { label: Seq<char>, arg_index: int, reference: Seq<char> },
}

impl View for ResolveError {
    type V = ResolveFault;

    open spec fn view(&self) -> ResolveFault {
        match self {
            ResolveError::EmptyPayload => ResolveFault::EmptyPayload,
            ResolveError::EmptyLabel { index } => ResolveFault::EmptyLabel { index: *index as int },
            ResolveError::DuplicateLabel { label } => ResolveFault::DuplicateLabel {
                label: label@,
            },
            ResolveError::InvalidFunctionId { label, function, fault } => {
                ResolveFault::InvalidFunctionId {
                    label: label@,
                    function: function@,
                    fault: *fault,
                }
            },
            ResolveError::InvalidTypeArgument { label, type_argument } => {
                ResolveFault::InvalidTypeArgument { label: label@, type_argument: type_argument@ }
            },
            ResolveError::UnknownReference { label, arg_index, reference } => {
                ResolveFault::UnknownReference {
                    label: label@,
                    arg_index: *arg_index as int,
                    reference: reference@,
                }
            },
        }
    }
}

/// The label of a step: the written label without surrounding whitespace.
pub open spec fn label_of(step: StepInput) -> Seq<char> {
    trimmed(step.label@)
}

/// Whether one of the first `upto` steps has the label `label`.
pub open spec fn label_seen(steps: Seq<StepInput>, upto: int, label: Seq<char>) -> bool {
    exists|j: int| 0 <= j < upto && j < steps.len() && label_of(#[trigger] steps[j]) == label
}

/// The position of the first type argument at or after `from` that is no
/// type tag, or the number of type arguments when all are.
pub open spec fn first_invalid_tag(tags: Seq<String>, from: int) -> int
    decreases tags.len() - from,
{
    if 0 <= from < tags.len() && parsed_type_tag(tags[from]@) is Some {
        first_invalid_tag(tags, from + 1)
    } else {
        from
    }
}

/// Whether `arg` refers to a label that none of the first `upto` steps has.
pub open spec fn is_dangling(arg: ArgInput, steps: Seq<StepInput>, upto: int) -> bool {
    arg matches ArgInput::Ref { step, .. } && !label_seen(steps, upto, step@)
}

/// The position of the first argument at or after `from` that refers to no
/// earlier step, or the number of arguments when none does.
pub open spec fn first_dangling(
    args: Seq<ArgInput>,
    steps: Seq<StepInput>,
    upto: int,
    from: int,
) -> int
    decreases args.len() - from,
{
    if 0 <= from < args.len() && !is_dangling(args[from], steps, upto) {
        first_dangling(args, steps, upto, from + 1)
    } else {
        from
    }
}

/// What is wrong with the step at `i`, given the steps before it: in this
/// order, an empty label, a label that an earlier step has, a function
/// that is no function identifier, a type argument that is no type tag, a
/// reference to a label that no earlier step has.
pub open spec fn step_fault(steps: Seq<StepInput>, i: int) -> Option<ResolveFault> {
    let step = steps[i];
    let label = label_of(step);
    let bad_tag = first_invalid_tag(step.type_arguments@, 0);
    let bad_arg = first_dangling(step.args@, steps, i, 0);
    if label.len() == 0 {
        Some(ResolveFault::EmptyLabel { index: i })
    } else if label_seen(steps, i, label) {
        Some(ResolveFault::DuplicateLabel { label })
    } else if function_id_of(step.function@) is Err {
        Some(
            ResolveFault::InvalidFunctionId {
                label,
                function: step.function@,
                fault: function_id_of(step.function@)->Err_0,
            },
        )
    } else if bad_tag < step.type_arguments@.len() {
        Some(
            ResolveFault::InvalidTypeArgument {
                label,
                type_argument: step.type_arguments@[bad_tag]@,
            },
        )
    } else if bad_arg < step.args@.len() {
        Some(
            ResolveFault::UnknownReference {
                label,
                arg_index: bad_arg,
                reference: step.args@[bad_arg]->Ref_step@,
            },
        )
    } else {
        None
    }
}

/// The position of the first faulty step at or after `from`, or the number
/// of steps when none is faulty.
pub open spec fn first_faulty_step(steps: Seq<StepInput>, from: int) -> int
    decreases steps.len() - from,
{
    if 0 <= from < steps.len() && step_fault(steps, from) is None {
        first_faulty_step(steps, from + 1)
    } else {
        from
    }
}

/// Whether `resolved` is the resolution of the step at `k`.
pub open spec fn is_resolution(steps: Seq<StepInput>, k: int, resolved: ResolvedStep) -> bool {
    &&& resolved.label@ == label_of(steps[k])
    &&& function_id_of(steps[k].function@) == Ok::<_, FunctionIdFault>(resolved.function_id@)
    &&& resolved.function_id.module.wf()
    &&& resolved.type_arguments == steps[k].type_arguments
    &&& resolved.args == steps[k].args
}

/// What resolving `steps` must give: the first fault of the first faulty
/// step, or every step resolved, in order.
pub open spec fn resolution(
    steps: Seq<StepInput>,
    out: Result<Vec<ResolvedStep>, ResolveError>,
) -> bool {
    match out {
        Ok(resolved) => {
            &&& steps.len() > 0
            &&& first_faulty_step(steps, 0) == steps.len()
            &&& resolved@.len() == steps.len()
            &&& forall|k: int|
                0 <= k < steps.len() ==> is_resolution(steps, k, #[trigger] resolved@[k])
        },
        Err(e) => if steps.len() == 0 {
            e@ == ResolveFault::EmptyPayload
        } else {
            &&& first_faulty_step(steps, 0) < steps.len()
            &&& step_fault(steps, first_faulty_step(steps, 0)) == Some(e@)
        },
    }
}

/// The search for a faulty step ends inside the list, at a faulty step
/// unless it reaches the end, and passes no faulty step on its way.
pub proof fn lemma_first_faulty_step(steps: Seq<StepInput>, from: int)
    requires
        0 <= from <= steps.len(),
    ensures
        from <= first_faulty_step(steps, from) <= steps.len(),
        first_faulty_step(steps, from) < steps.len() ==> step_fault(
            steps,
            first_faulty_step(steps, from),
        ) is Some,
        forall|j: int|
            from <= j < first_faulty_step(steps, from) ==> (#[trigger] step_fault(
                steps,
                j,
            )) is None,
    decreases steps.len() - from,
{
    if from < steps.len() && step_fault(steps, from) is None {
        lemma_first_faulty_step(steps, from + 1);
    }
}

fn seen_label(labels: &Vec<String>, label: &str) -> (r: bool)
    ensures
        r == exists|j: int| 0 <= j < labels@.len() && (#[trigger] labels@[j])@ == label@,
{
    let mut i: usize = 0;
    while i < labels.len()
        invariant
            i <= labels@.len(),
            forall|j: int| 0 <= j < i ==> (#[trigger] labels@[j])@ != label@,
        decreases labels@.len() - i,
    {
        if str_eq(labels[i].as_str(), label) {
            return true;
        }
        i += 1;
    }
    false
}

fn invalid_tag_index(tags: &Vec<String>) -> (at: usize)
    ensures
        at == first_invalid_tag(tags@, 0),
        at <= tags@.len(),
{
    let mut i: usize = 0;
    while i < tags.len()
        invariant
            i <= tags@.len(),
            first_invalid_tag(tags@, 0) == first_invalid_tag(tags@, i as int),
        decreases tags@.len() - i,
    {
        if parse_type_tag(tags[i].as_str()).is_none() {
            return i;
        }
        i += 1;
    }
    i
}

/// Checks the steps in payload order. Labels are trimmed and must be
/// non-empty and unique; every function must be `address::module::function`;
/// every type argument must be a type tag; every reference must name the
/// label of an earlier step.
#[verifier::loop_isolation(false)]
pub fn resolve_steps(payload_steps: Vec<StepInput>) -> (out: Result<
    Vec<ResolvedStep>,
    ResolveError,
>)
    ensures
        resolution(payload_steps@, out),
{
    if payload_steps.len() == 0 {
        return Err(ResolveError::EmptyPayload);
    }
    let ghost all = payload_steps@;
    assert(all.len() == payload_steps.len());
    let mut resolved: Vec<ResolvedStep> = Vec::new();
    let mut labels: Vec<String> = Vec::new();
    let mut index: usize = 0;
    for step in it: payload_steps
        invariant
            it.seq() == all,
            all.len() <= usize::MAX,
            all.len() > 0,
            index == it.index(),
            labels@.len() == it.index(),
            resolved@.len() == it.index(),
            forall|j: int| 0 <= j < it.index() ==> (#[trigger] labels@[j])@ == label_of(all[j]),
            forall|j: int| 0 <= j < it.index() ==> is_resolution(all, j, #[trigger] resolved@[j]),
            first_faulty_step(all, 0) == first_faulty_step(all, it.index() as int),
    {
        let ghost i = index as int;
        assert(step == all[i]);
        let label_chars = str_chars(step.label.as_str());
        let trimmed_chars = trim_chars(&label_chars);
        let label = chars_string(&trimmed_chars);
        assert(label@ == label_of(step));
        assert(label_seen(all, i, label@) <==> exists|j: int|
            0 <= j < labels@.len() && (#[trigger] labels@[j])@ == label@) by {
            if label_seen(all, i, label@) {
                let j = choose|j: int|
                    0 <= j < i && j < all.len() && label_of(#[trigger] all[j]) == label@;
                assert(labels@[j]@ == label@);
            }
            if exists|j: int| 0 <= j < labels@.len() && (#[trigger] labels@[j])@ == label@ {
                let j = choose|j: int| 0 <= j < labels@.len() && (#[trigger] labels@[j])@ == label@;
                assert(label_of(all[j]) == label@);
            }
        }
        if trimmed_chars.len() == 0 {
            return Err(ResolveError::EmptyLabel { index });
        }
        if seen_label(&labels, label.as_str()) {
            return Err(ResolveError::DuplicateLabel { label });
        }
        let function_id = match FunctionId::parse(step.function.as_str()) {
            Ok(function_id) => function_id,
            Err(fault) => {
                return Err(
                    ResolveError::InvalidFunctionId {
                        label,
                        function: step.function.clone(),
                        fault,
                    },
                );
            },
        };
        let bad_tag = invalid_tag_index(&step.type_arguments);
        if bad_tag < step.type_arguments.len() {
            return Err(
                ResolveError::InvalidTypeArgument {
                    label,
                    type_argument: step.type_arguments[bad_tag].clone(),
                },
            );
        }
        let mut a: usize = 0;
        while a < step.args.len()
            invariant
                a <= step.args@.len(),
                step == all[i],
                0 <= i < all.len(),
                labels@.len() == i,
                forall|j: int| 0 <= j < i ==> (#[trigger] labels@[j])@ == label_of(all[j]),
                first_dangling(step.args@, all, i, 0) == first_dangling(
                    step.args@,
                    all,
                    i,
                    a as int,
                ),
            decreases step.args@.len() - a,
        {
            if let ArgInput::Ref { step: reference, .. } = &step.args[a] {
                assert(label_seen(all, i, reference@) <==> exists|j: int|
                    0 <= j < labels@.len() && (#[trigger] labels@[j])@ == reference@) by {
                    if label_seen(all, i, reference@) {
                        let j = choose|j: int|
                            0 <= j < i && j < all.len() && label_of(#[trigger] all[j])
                                == reference@;
                        assert(labels@[j]@ == reference@);
                    }
                    if exists|j: int|
                        0 <= j < labels@.len() && (#[trigger] labels@[j])@ == reference@ {
                        let j = choose|j: int|
                            0 <= j < labels@.len() && (#[trigger] labels@[j])@ == reference@;
                        assert(label_of(all[j]) == reference@);
                    }
                }
                if !seen_label(&labels, reference.as_str()) {
                    return Err(
                        ResolveError::UnknownReference {
                            label,
                            arg_index: a,
                            reference: reference.clone(),
                        },
                    );
                }
            }
            a += 1;
        }
        assert(step_fault(all, i) is None);
        labels.push(label.clone());
        resolved.push(
            ResolvedStep {
                label,
                function_id,
                type_arguments: step.type_arguments,
                args: step.args,
            },
        );
        index += 1;
    }
    Ok(resolved)
}

/// The search for a dangling reference ends inside the list, at a dangling
/// reference unless it reaches the end, and passes none on its way.
pub proof fn lemma_first_dangling(
    args: Seq<ArgInput>,
    steps: Seq<StepInput>,
    upto: int,
    from: int,
)
    requires
        0 <= from <= args.len(),
    ensures
        from <= first_dangling(args, steps, upto, from) <= args.len(),
        first_dangling(args, steps, upto, from) < args.len() ==> is_dangling(
            args[first_dangling(args, steps, upto, from)],
            steps,
            upto,
        ),
        forall|j: int|
            from <= j < first_dangling(args, steps, upto, from) ==> !is_dangling(
                #[trigger] args[j],
                steps,
                upto,
            ),
    decreases args.len() - from,
{
    if from < args.len() && !is_dangling(args[from], steps, upto) {
        lemma_first_dangling(args, steps, upto, from + 1);
    }
}

/// Two steps with the same label, wherever they stand, make the list
/// unresolvable.
pub proof fn lemma_duplicate_label_rejected(
    steps: Seq<StepInput>,
    i: int,
    j: int,
    out: Result<Vec<ResolvedStep>, ResolveError>,
)
    requires
        0 <= i < j < steps.len(),
        label_of(steps[i]) == label_of(steps[j]),
        resolution(steps, out),
    ensures
        out is Err,
{
    lemma_first_faulty_step(steps, 0);
    if first_faulty_step(steps, 0) == steps.len() {
        assert(step_fault(steps, j) is None);
        assert(label_seen(steps, j, label_of(steps[j])));
    }
}

/// A reference to a label that no earlier step has (a later step, the step
/// itself or no step at all) makes the list unresolvable.
pub proof fn lemma_unknown_reference_rejected(
    steps: Seq<StepInput>,
    i: int,
    a: int,
    out: Result<Vec<ResolvedStep>, ResolveError>,
)
    requires
        0 <= i < steps.len(),
        0 <= a < steps[i].args@.len(),
        is_dangling(steps[i].args@[a], steps, i),
        resolution(steps, out),
    ensures
        out is Err,
{
    lemma_first_faulty_step(steps, 0);
    if first_faulty_step(steps, 0) == steps.len() {
        assert(step_fault(steps, i) is None);
        lemma_first_dangling(steps[i].args@, steps, i, 0);
    }
}

/// A step whose references all name labels of earlier steps is not refused
/// for its references.
pub proof fn lemma_known_references_accepted(steps: Seq<StepInput>, i: int)
    requires
        0 <= i < steps.len(),
        forall|a: int|
            0 <= a < steps[i].args@.len() ==> !is_dangling(#[trigger] steps[i].args@[a], steps, i),
    ensures
        !(step_fault(steps, i) matches Some(ResolveFault::UnknownReference { .. })),
{
    lemma_first_dangling(steps[i].args@, steps, i, 0);
    let bad = first_dangling(steps[i].args@, steps, i, 0);
    if bad < steps[i].args@.len() {
        assert(!is_dangling(steps[i].args@[bad], steps, i));
    }
}

/// The labels of resolved steps are not empty and no two of them are equal.
pub proof fn lemma_resolved_labels_distinct(steps: Seq<StepInput>, resolved: Vec<ResolvedStep>)
    requires
        resolution(steps, Ok::<Vec<ResolvedStep>, ResolveError>(resolved)),
    ensures
        forall|k: int| 0 <= k < resolved@.len() ==> (#[trigger] resolved@[k]).label@.len() > 0,
        forall|i: int, j: int|
            0 <= i < j < resolved@.len() ==> (#[trigger] resolved@[i]).label@ != (
            #[trigger] resolved@[j]).label@,
{
    lemma_first_faulty_step(steps, 0);
    assert forall|k: int| 0 <= k < resolved@.len() implies (#[trigger] resolved@[k]).label@.len()
        > 0 by {
        assert(step_fault(steps, k) is None);
        assert(is_resolution(steps, k, resolved@[k]));
    }
    assert forall|i: int, j: int| 0 <= i < j < resolved@.len() implies (
    #[trigger] resolved@[i]).label@ != (#[trigger] resolved@[j]).label@ by {
        assert(step_fault(steps, j) is None);
        assert(is_resolution(steps, i, resolved@[i]));
        assert(is_resolution(steps, j, resolved@[j]));
        if resolved@[i].label@ == resolved@[j].label@ {
            assert(label_of(steps[i]) == label_of(steps[j]));
            assert(label_seen(steps, j, label_of(steps[j])));
        }
    }
}

/// Every reference of a resolved step names the label of a step that
/// stands strictly before it: no step refers to itself or forward.
pub proof fn lemma_resolved_references_point_back(
    steps: Seq<StepInput>,
    resolved: Vec<ResolvedStep>,
    k: int,
    a: int,
)
    requires
        resolution(steps, Ok::<Vec<ResolvedStep>, ResolveError>(resolved)),
        0 <= k < resolved@.len(),
        0 <= a < resolved@[k].args@.len(),
        resolved@[k].args@[a] is Ref,
    ensures
        exists|j: int|
            0 <= j < k && (#[trigger] resolved@[j]).label@ == resolved@[k].args@[a]->Ref_step@,
{
    lemma_first_faulty_step(steps, 0);
    assert(step_fault(steps, k) is None);
    assert(is_resolution(steps, k, resolved@[k]));
    lemma_first_dangling(steps[k].args@, steps, k, 0);
    let arg = steps[k].args@[a];
    assert(!is_dangling(arg, steps, k));
    let reference = arg->Ref_step@;
    assert(label_seen(steps, k, reference));
    let j = choose|j: int|
        0 <= j < k && j < steps.len() && label_of(#[trigger] steps[j]) == reference;
    assert(is_resolution(steps, j, resolved@[j]));
    assert(resolved@[j].label@ == reference);
}

} // verus!
