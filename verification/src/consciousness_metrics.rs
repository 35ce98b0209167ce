//! Which oscillation bands are tracked, and at what rate.

use vstd::prelude::*;

verus! {

/// The bands that are tracked, from slowest to fastest.
pub open spec fn tracked_bands() -> Seq<Seq<char>> {
    seq!["delta"@, "theta"@, "alpha"@, "beta"@, "gamma"@]
}

/// A tracker of neural oscillations.
pub struct NeuralOscillationTracker {
    pub sampling_rate: usize,
    pub frequency_bands: Vec<&'static str>,
}

impl NeuralOscillationTracker {
    /// A tracker that samples at 256 Hz and follows the five standard
    /// bands.
    pub fn new() -> (tracker: Self)
        ensures
            tracker.sampling_rate == 256,
            tracker.frequency_bands@.len() == 5,
            forall|i: int|
                0 <= i < 5 ==> (#[trigger] tracker.frequency_bands@[i])@ == tracked_bands()[i],
    {
        NeuralOscillationTracker {
            sampling_rate: 256,
            frequency_bands: vec!["delta", "theta", "alpha", "beta", "gamma"],
        }
    }
}

} // verus!
