//! The size of a simulation spread over several nodes.

use vstd::prelude::*;

verus! {

/// A cluster of equal nodes.
pub struct DistributedSimulator {
    pub node_count: usize,
    pub qubits_per_node: usize,
}

impl DistributedSimulator {
    pub fn new(nodes: usize, qubits_per_node: usize) -> (simulator: Self)
        ensures
            simulator.node_count == nodes,
            simulator.qubits_per_node == qubits_per_node,
    {
        DistributedSimulator { node_count: nodes, qubits_per_node }
    }

    /// The number of qubits the cluster simulates in total, or nothing when
    /// that number does not fit the machine word.
    pub fn total_qubits(&self) -> (total: Option<usize>)
        ensures
            total == if self.node_count * self.qubits_per_node <= usize::MAX {
                Some((self.node_count * self.qubits_per_node) as usize)
            } else {
                None::<usize>
            },
    {
        self.node_count.checked_mul(self.qubits_per_node)
    }
}

} // verus!
