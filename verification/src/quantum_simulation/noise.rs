//! The noise model: which amplitudes a round of decoherence damps, and
//! whether a gate is applied at full fidelity.
//!
//! The model holds two probabilities as levels. Every decision compares one
//! uniform draw from `[0, 1)`, also a level, with one of them, so a run is
//! reproducible whenever its draws are.

use vstd::prelude::*;
use crate::quantum_simulation::state_vector::{selective_step, StateVector};

verus! {

/// How the next gate is applied.
#[derive(Clone, Copy, Debug, PartialEq, Eq, Structural)]
pub enum Fidelity {
    /// It acts as specified.
    Full,
    /// Its contribution is scaled down by the attenuation factor.
    Attenuated,
}

/// Decoherence and gate-fidelity policy.
#[derive(Clone, Copy, Debug, PartialEq, Eq)]
pub struct NoiseModel {
    /// Probability, per amplitude and per gate, that the amplitude is damped.
    pub decoherence_rate: u64,
    /// Probability that a gate is applied at full fidelity.
    pub gate_fidelity: u64,
}

/// The amplitudes that a round of decoherence damps: those whose draw lies
/// below the decoherence rate.
pub open spec fn damping_pattern(decoherence_rate: u64, draws: Seq<u64>) -> Seq<bool> {
    Seq::new(draws.len(), |i: int| draws[i] < decoherence_rate)
}

impl NoiseModel {
    /// A model with the given decoherence rate and gate fidelity.
    pub fn new(decoherence_rate: u64, gate_fidelity: u64) -> (model: NoiseModel)
        ensures
            model.decoherence_rate == decoherence_rate,
            model.gate_fidelity == gate_fidelity,
    {
        NoiseModel { decoherence_rate, gate_fidelity }
    }

    /// The model under which nothing is ever damped or attenuated.
    pub fn noiseless() -> (model: NoiseModel)
        ensures
            model.decoherence_rate == 0,
            model.gate_fidelity == u64::MAX,
            forall|draw: u64| !model.damps_at(draw),
            forall|draw: u64| model.fidelity_at(draw) == Fidelity::Full,
    {
        NoiseModel { decoherence_rate: 0, gate_fidelity: u64::MAX }
    }

    /// Whether an amplitude with this draw is damped.
    pub open spec fn damps_at(&self, draw: u64) -> bool {
        draw < self.decoherence_rate
    }

    /// How a gate with this draw is applied.
    pub open spec fn fidelity_at(&self, draw: u64) -> Fidelity {
        if draw > self.gate_fidelity {
            Fidelity::Attenuated
        } else {
            Fidelity::Full
        }
    }

    /// Decides from one draw whether an amplitude is damped: it is when the
    /// draw lies below the decoherence rate.
    pub fn damps(&self, draw: u64) -> (damped: bool)
        ensures
            damped == self.damps_at(draw),
    {
        draw < self.decoherence_rate
    }

    /// Decides from one draw how the next gate is applied: attenuated when
    /// the draw exceeds `gate_fidelity`, at full fidelity otherwise.
    pub fn fidelity_factor(&self, draw: u64) -> (fidelity: Fidelity)
        ensures
            fidelity == self.fidelity_at(draw),
    {
        if draw > self.gate_fidelity {
            Fidelity::Attenuated
        } else {
            Fidelity::Full
        }
    }

    /// One round of decoherence: the amplitude of basis state `i` is replaced
    /// by its image under `damp` when `draws[i]` lies below the decoherence
    /// rate, and is left alone otherwise. Nothing is renormalized. A basis
    /// state for which no draw is given is left alone.
    pub fn perturb<A: Copy, F: Fn(A) -> A>(
        &self,
        state: &mut StateVector<A>,
        draws: &Vec<u64>,
        damp: F,
    )
        requires
            old(state).well_formed(),
            forall|a: A| call_requires(damp, (a,)),
        ensures
            final(state).well_formed(),
            final(state).qubits() == old(state).qubits(),
            final(state).zero() == old(state).zero(),
            final(state).one() == old(state).one(),
            selective_step(
                damp,
                damping_pattern(self.decoherence_rate, draws@),
                old(state)@,
                final(state)@,
            ),
    {
        let mut selected: Vec<bool> = Vec::new();
        let mut i: usize = 0;
        while i < draws.len()
            invariant
                i <= draws@.len(),
                selected@.len() == i,
                forall|j: int| 0 <= j < i ==> selected@[j] == (draws@[j] < self.decoherence_rate),
            decreases draws@.len() - i,
        {
            selected.push(draws[i] < self.decoherence_rate);
            i += 1;
        }
        assert(selected@ =~= damping_pattern(self.decoherence_rate, draws@));
        state.transform_selected(&selected, damp);
    }
}

} // verus!
