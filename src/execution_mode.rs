//! The two execution policies and the actions each lets a step invoke.

use vstd::prelude::*;

verus! {

/// The policy that decides which actions a step's conditions may invoke.
#[derive(Debug, Clone, Copy, PartialEq, Eq, Structural)]
pub enum ExecutionMode {
    /// Sequential execution: only `Stop` is honoured, nothing is skipped.
    Enforcement,
    /// Full control flow: `Continue`, `Goto` and `Stop`.
    Guided,
}

impl ExecutionMode {
    pub open spec fn permits_continue(self) -> bool {
        self == ExecutionMode::Guided
    }

    pub open spec fn permits_goto(self) -> bool {
        self == ExecutionMode::Guided
    }

    pub fn allows_continue(&self) -> (r: bool)
        ensures
            r == self.permits_continue(),
    {
        match self {
            ExecutionMode::Enforcement => false,
            ExecutionMode::Guided => true,
        }
    }

    pub fn allows_goto(&self) -> (r: bool)
        ensures
            r == self.permits_goto(),
    {
        match self {
            ExecutionMode::Enforcement => false,
            ExecutionMode::Guided => true,
        }
    }

    /// Both modes honour `Stop`.
    pub fn allows_stop(&self) -> (r: bool)
        ensures
            r,
    {
        true
    }
}

} // verus!
