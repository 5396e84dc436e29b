use vstd::prelude::*;

verus! {

/// The reason given to the SBI system-reset call when the machine shuts down.
#[derive(Clone, Copy, PartialEq, Eq, Structural, Debug)]
pub enum ResetReason {
    /// A normal shutdown.
    NoReason,
    /// A shutdown because of a failure (such as a kernel panic).
    SystemFailure,
}

/// The reason for a shutdown: `SystemFailure` exactly when `failure`.
pub fn shutdown_reason(failure: bool) -> (reason: ResetReason)
    ensures
        reason == if failure { ResetReason::SystemFailure } else { ResetReason::NoReason },
{
    if !failure {
        ResetReason::NoReason
    } else {
        ResetReason::SystemFailure
    }
}

} // verus!
