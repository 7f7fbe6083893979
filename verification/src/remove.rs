//! The remover: what became of one removal.

use vstd::prelude::*;
use crate::outcome::RunResult;

verus! {

/// The outcome of the attempt to remove one package.
#[derive(Clone, Debug, PartialEq, Eq)]
pub enum OperationOutcome {
    /// The removal command was started and ran to its end.
    Uninstalled,
    /// The removal command could not be started; `reason` says why.
    Failed { reason: String },
}

/// The outcome that the result of a removal command stands for.
///
/// A removal counts as done as soon as its command ran to its end, whatever
/// its exit status: a command that ran and failed is not told apart from one
/// that ran and removed the package. Only a command that could not be started
/// counts as failed.
pub open spec fn spec_outcome(result: RunResult) -> OperationOutcome {
    match result {
        RunResult::Completed { .. } => OperationOutcome::Uninstalled,
        RunResult::SpawnFailed { reason } => OperationOutcome::Failed { reason },
    }
}

/// Reads the outcome of a removal off the result of its command.
pub fn uninstall_package(result: &RunResult) -> (outcome: OperationOutcome)
    ensures
        outcome == spec_outcome(*result),
        outcome is Uninstalled <==> result.ran(),
        outcome matches OperationOutcome::Failed { reason } ==> reason@ == result.failure_reason(),
{
    match result {
        RunResult::Completed { .. } => OperationOutcome::Uninstalled,
        RunResult::SpawnFailed { reason } => OperationOutcome::Failed { reason: reason.clone() },
    }
}

} // verus!
