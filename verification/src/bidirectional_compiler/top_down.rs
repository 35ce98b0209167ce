//! The top-down compiler: collects the operations of a circuit in the order
//! in which they are requested.

use vstd::prelude::*;
use crate::quantum::qasm::{positional_circuit, positional_instruction, QuantumOperation};
use crate::quantum_simulation::circuit::GateInstruction;

verus! {

/// Collects quantum operations in request order.
pub struct TopDownCompiler {
    pub quantum_operations: Vec<QuantumOperation>,
}

impl TopDownCompiler {
    /// A compiler that holds no operation yet.
    pub fn new() -> (compiler: Self)
        ensures
            compiler.quantum_operations@ == Seq::<QuantumOperation>::empty(),
    {
        TopDownCompiler { quantum_operations: Vec::new() }
    }

    /// Appends an operation; the ones already held keep their place.
    pub fn add_operation(&mut self, op: QuantumOperation)
        ensures
            final(self).quantum_operations@ == old(self).quantum_operations@.push(op),
    {
        self.quantum_operations.push(op);
    }

    /// The operations held, read as a circuit by position.
    pub fn circuit(&self) -> (circuit: Vec<GateInstruction>)
        ensures
            circuit@.len() == self.quantum_operations@.len(),
            forall|i: int|
                0 <= i < circuit@.len() ==> #[trigger] circuit@[i] == positional_instruction(
                    self.quantum_operations@[i],
                    i as usize,
                ),
    {
        positional_circuit(&self.quantum_operations)
    }
}

} // verus!
