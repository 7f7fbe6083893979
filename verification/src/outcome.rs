//! What running one command produced, as the caller observed it.

use vstd::prelude::*;

verus! {

/// The observed result of running one command to its end.
#[derive(Clone, Debug, PartialEq, Eq)]
pub enum RunResult {
    /// The process could not be started at all; `reason` says why.
    SpawnFailed { reason: String },
    /// The process ran to its end. `success` tells whether its exit status was
    /// zero, `stdout` holds what it wrote to its standard output.
    Completed { success: bool, stdout: Vec<u8> },
}

impl RunResult {
    /// The process was started and ran to its end.
    pub open spec fn ran(&self) -> bool {
        self is Completed
    }

    /// The process ran and left with exit status zero.
    pub open spec fn exited_ok(&self) -> bool {
        match self {
            RunResult::Completed { success, .. } => *success,
            RunResult::SpawnFailed { .. } => false,
        }
    }

    /// What the process wrote to its standard output; nothing, if it never ran.
    pub open spec fn output(&self) -> Seq<u8> {
        match self {
            RunResult::Completed { stdout, .. } => stdout@,
            RunResult::SpawnFailed { .. } => Seq::empty(),
        }
    }

    /// Why the process could not be started; empty, if it ran.
    pub open spec fn failure_reason(&self) -> Seq<char> {
        match self {
            RunResult::SpawnFailed { reason } => reason@,
            RunResult::Completed { .. } => Seq::empty(),
        }
    }

    pub fn has_run(&self) -> (ran: bool)
        ensures
            ran == self.ran(),
    {
        match self {
            RunResult::Completed { .. } => true,
            RunResult::SpawnFailed { .. } => false,
        }
    }

    pub fn succeeded(&self) -> (ok: bool)
        ensures
            ok == self.exited_ok(),
    {
        match self {
            RunResult::Completed { success, .. } => *success,
            RunResult::SpawnFailed { .. } => false,
        }
    }
}

} // verus!
