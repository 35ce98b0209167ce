//! The errors of the simulator.
//!
//! Every error aborts the run that meets it. None is retried: each one says
//! that the circuit description is malformed or that the state has decayed
//! beyond repair.

use vstd::prelude::*;

verus! {

/// The ways in which a run can fail.
#[derive(Clone, Copy, Debug, PartialEq, Eq, Structural)]
pub enum SimError {
    /// The qubit count is zero or larger than the simulator admits.
    InvalidQubitCount,
    /// A gate addresses a qubit the register does not have, or a two-qubit
    /// gate lacks a control or names the same qubit as control and target.
    IndexOutOfRange,
    /// The tag has no matrix: it is not one of the executable gate kinds.
    UnknownGateKind,
    /// The total probability mass has fallen below epsilon.
    DecayedState,
}

impl SimError {
    /// The text of the error message.
    pub open spec fn message_text(self) -> Seq<char> {
        match self {
            SimError::InvalidQubitCount => "qubit count is zero or exceeds the maximum"@,
            SimError::IndexOutOfRange => "qubit index out of range"@,
            SimError::UnknownGateKind => "unknown gate kind"@,
            SimError::DecayedState => "state has decayed"@,
        }
    }

    /// A one-line message for the error.
    pub fn message(&self) -> (text: String)
        ensures
            text@ == self.message_text(),
    {
        match self {
            SimError::InvalidQubitCount => String::from_str(
                "qubit count is zero or exceeds the maximum",
            ),
            SimError::IndexOutOfRange => String::from_str("qubit index out of range"),
            SimError::UnknownGateKind => String::from_str("unknown gate kind"),
            SimError::DecayedState => String::from_str("state has decayed"),
        }
    }
}

} // verus!
