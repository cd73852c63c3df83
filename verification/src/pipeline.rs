//! The first half of a run: from the payload to the resolved steps and the
//! modules that must be fetched for them.

use vstd::prelude::*;
use crate::function_id::ModuleKey;
use crate::json::JsonValue;
use crate::modules::{collect_required_modules, keys_wf, module_collection};
use crate::payload::{parse_steps_payload, payload_decoding, PayloadError, StepInput};
use crate::resolve::{resolution, resolve_steps, ResolveError, ResolvedStep};

verus! {

/// The steps of a payload, resolved, and the modules they need.
#[derive(Debug, PartialEq)]
pub struct Prepared {
    pub steps: Vec<ResolvedStep>,
    pub modules: Vec<ModuleKey>,
}

/// Why a payload could not be prepared.
#[derive(Debug, Clone, PartialEq, Eq)]
pub enum PrepareError {
    /// The payload is no array of steps.
    Payload(PayloadError),
    /// The steps cannot be resolved, or a type argument names no type.
    Resolve(ResolveError),
}

/// Whether every step names a module by a full address and an identifier.
pub open spec fn steps_wf(steps: Seq<ResolvedStep>) -> bool {
    forall|k: int| 0 <= k < steps.len() ==> (#[trigger] steps[k]).function_id.module.wf()
}

/// Whether `prepared` is what the payload `raw` gives: the steps that it
/// decodes to, resolved, with the modules that they need.
pub open spec fn is_prepared(raw: JsonValue, prepared: Prepared) -> bool {
    exists|inputs: Vec<StepInput>|
        {
            &&& #[trigger] payload_decoding(raw, Ok::<Vec<StepInput>, PayloadError>(inputs))
            &&& resolution(inputs@, Ok::<Vec<ResolvedStep>, ResolveError>(prepared.steps))
            &&& module_collection(
                prepared.steps@,
                Ok::<Vec<ModuleKey>, ResolveError>(prepared.modules),
            )
        }
}

/// Whether the steps that the payload `raw` decodes to fail with `error`
/// when they are resolved or when their modules are collected.
pub open spec fn fails_to_resolve(raw: JsonValue, error: ResolveError) -> bool {
    exists|inputs: Vec<StepInput>|
        {
            &&& #[trigger] payload_decoding(raw, Ok::<Vec<StepInput>, PayloadError>(inputs))
            &&& (resolution(inputs@, Err::<Vec<ResolvedStep>, ResolveError>(error))
                || exists|steps: Vec<ResolvedStep>|
                {
                    &&& #[trigger] resolution(inputs@, Ok::<Vec<ResolvedStep>, ResolveError>(steps))
                    &&& module_collection(steps@, Err::<Vec<ModuleKey>, ResolveError>(error))
                })
        }
}

/// Decodes the payload, resolves its steps and collects the modules that
/// must be fetched before any call is planned. The first fault on the way
/// is reported; no step is resolved unless all are.
pub fn prepare(raw: JsonValue) -> (out: Result<Prepared, PrepareError>)
    ensures
        match out {
            Ok(prepared) => is_prepared(raw, prepared) && steps_wf(prepared.steps@) && keys_wf(
                prepared.modules@,
            ),
            Err(PrepareError::Payload(e)) => payload_decoding(
                raw,
                Err::<Vec<StepInput>, PayloadError>(e),
            ),
            Err(PrepareError::Resolve(e)) => fails_to_resolve(raw, e),
        },
{
    let inputs = match parse_steps_payload(raw) {
        Ok(inputs) => inputs,
        Err(e) => {
            return Err(PrepareError::Payload(e));
        },
    };
    let ghost decoded = inputs;
    let steps = match resolve_steps(inputs) {
        Ok(steps) => steps,
        Err(e) => {
            proof {
                assert(payload_decoding(raw, Ok::<Vec<StepInput>, PayloadError>(decoded)));
            }
            return Err(PrepareError::Resolve(e));
        },
    };
    match collect_required_modules(steps.as_slice()) {
        Ok(modules) => {
            proof {
                assert(payload_decoding(raw, Ok::<Vec<StepInput>, PayloadError>(decoded)));
            }
            Ok(Prepared { steps, modules })
        },
        Err(e) => {
            proof {
                assert(resolution(decoded@, Ok::<Vec<ResolvedStep>, ResolveError>(steps)));
                assert(payload_decoding(raw, Ok::<Vec<StepInput>, PayloadError>(decoded)));
            }
            Err(PrepareError::Resolve(e))
        },
    }
}

} // verus!
