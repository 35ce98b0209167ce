//! The coarse lifecycle of a quantum state: void, in superposition,
//! collapsed.

use vstd::prelude::*;

verus! {

/// Where a quantum state stands in its lifecycle.
#[derive(Debug, PartialEq, Eq, Clone, Copy, Structural)]
pub enum QuantumState {
    /// Nothing has been prepared yet.
    Void,
    /// Prepared and not yet observed.
    Superposition,
    /// Observed; the state is classical from here on.
    Collapsed,
}

impl Default for QuantumState {
    fn default() -> (state: Self)
        ensures
            state == QuantumState::Void,
    {
        QuantumState::Void
    }
}

/// What observing a state leaves: a superposition collapses, every other
/// state stays as it is.
pub open spec fn collapsed(state: QuantumState) -> QuantumState {
    match state {
        QuantumState::Superposition => QuantumState::Collapsed,
        _ => state,
    }
}

/// What preparing a state leaves: the void becomes a superposition, every
/// other state stays as it is.
pub open spec fn superposed(state: QuantumState) -> QuantumState {
    match state {
        QuantumState::Void => QuantumState::Superposition,
        _ => state,
    }
}

/// Collapse is final: a state that has been observed does not change when
/// observed or prepared again, and observing twice is observing once.
pub proof fn lemma_collapse_is_final(state: QuantumState)
    ensures
        collapsed(collapsed(state)) == collapsed(state),
        superposed(superposed(state)) == superposed(state),
        collapsed(QuantumState::Collapsed) == QuantumState::Collapsed,
        superposed(QuantumState::Collapsed) == QuantumState::Collapsed,
        collapsed(superposed(state)) != QuantumState::Superposition,
{
}

/// The transitions between lifecycle states.
pub struct QuantumSystem;

impl QuantumSystem {
    pub fn new() -> (system: Self) {
        QuantumSystem
    }

    /// Observes a state: a superposition collapses, every other state is
    /// returned unchanged.
    pub fn collapse_state(&self, state: QuantumState) -> (next: QuantumState)
        ensures
            next == collapsed(state),
    {
        match state {
            QuantumState::Superposition => QuantumState::Collapsed,
            _ => state,
        }
    }

    /// Prepares a state: the void becomes a superposition, every other state
    /// is returned unchanged.
    pub fn create_superposition(&self, state: QuantumState) -> (next: QuantumState)
        ensures
            next == superposed(state),
    {
        match state {
            QuantumState::Void => QuantumState::Superposition,
            _ => state,
        }
    }
}

} // verus!
