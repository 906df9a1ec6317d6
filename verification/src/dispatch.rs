//! Runs whole loops under the best instruction set the CPU offers, so their
//! bodies are compiled with the selected features.

use vstd::prelude::*;

verus! {

/// Calls `operation` once, through `pulp::Arch::dispatch` on the instruction
/// set that `pulp::Arch::new` detects, and returns what it returns. Trusted:
/// pulp's `dispatch` hands a nullary closure to `WithSimd::with_simd`, which
/// calls it exactly once; that this happens is not proved here.
#[verifier::external_body]
fn dispatch_on_detected_arch<R, F: FnOnce() -> R>(operation: F) -> (output: R)
    requires
        operation.requires(()),
    ensures
        operation.ensures((), output),
{
    pulp::Arch::new().dispatch(operation)
}

/// Runs `operation` with the CPU features that the running machine supports
/// and returns its result.
pub fn dispatch<R, F: FnOnce() -> R>(operation: F) -> (output: R)
    requires
        operation.requires(()),
    ensures
        operation.ensures((), output),
{
    dispatch_on_detected_arch(operation)
}

} // verus!
