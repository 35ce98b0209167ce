//! Stand-ins for quantum hardware.

use vstd::prelude::*;

verus! {

/// A processor that does nothing but count how often it was calibrated.
pub struct MockQuantumProcessor {
    pub calibration_count: u32,
}

impl MockQuantumProcessor {
    /// A processor that has never been calibrated.
    pub fn new() -> (processor: Self)
        ensures
            processor.calibration_count == 0,
    {
        MockQuantumProcessor { calibration_count: 0 }
    }
}

} // verus!
