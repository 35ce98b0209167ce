//! How many states in superposition the memory can hold.

use vstd::prelude::*;

verus! {

/// A memory with room for a fixed number of states in superposition.
pub struct QuantumMemoryManager {
    pub superposition_capacity: usize,
}

impl QuantumMemoryManager {
    pub fn new(capacity: usize) -> (manager: Self)
        ensures
            manager.superposition_capacity == capacity,
    {
        QuantumMemoryManager { superposition_capacity: capacity }
    }
}

} // verus!
