//! Workload choices.

use vstd::prelude::*;

verus! {

/// Which transaction mix the spammer generates.
#[derive(Debug, Clone, Copy, PartialEq, Eq, Structural)]
pub enum Workload {
    /// Ring of public transfers.
    Public,
    /// Private payments: each account cycles fund -> rollover -> transfer.
    Private,
}

impl Default for Workload {
    fn default() -> (workload: Self)
        ensures
            workload == Workload::Public,
    {
        Workload::Public
    }
}

/// How private transfer proofs are produced.
#[derive(Debug, Clone, Copy, PartialEq, Eq, Structural)]
pub enum PrivateProofMode {
    /// Real proofs from the configured backend.
    Real,
    /// Simulated proofs via the trapdoor (requires the simulator feature).
    Simulated,
}

impl Default for PrivateProofMode {
    fn default() -> (mode: Self)
        ensures
            mode == PrivateProofMode::Real,
    {
        PrivateProofMode::Real
    }
}

} // verus!
