//! Classical views of a quantum state.
//!
//! A classical shadow is a fixed number of samples taken from the values
//! that describe a state, each found at a randomly drawn position.

use vstd::prelude::*;
use crate::random::random_index;

verus! {

/// The values found at the picked positions, in pick order.
pub open spec fn gathered<T>(values: Seq<T>, picks: Seq<usize>) -> Seq<T> {
    Seq::new(picks.len(), |i: int| values[picks[i] as int])
}

/// Every pick is a position below `size`.
pub open spec fn picks_fit(picks: Seq<usize>, size: nat) -> bool {
    forall|i: int| 0 <= i < picks.len() ==> #[trigger] picks[i] < size
}

/// A classical shadow of fixed depth: the number of samples it is made of.
pub struct ClassicalShadowing {
    pub shadow_depth: usize,
}

impl ClassicalShadowing {
    pub fn new(depth: usize) -> (shadowing: Self)
        ensures
            shadowing.shadow_depth == depth,
    {
        ClassicalShadowing { shadow_depth: depth }
    }

    /// The shadow that a given sequence of picks produces: the value found
    /// at each picked position, in pick order. There is no shadow when a
    /// pick lies outside the values.
    pub fn shadow_of<T: Copy>(values: &Vec<T>, picks: &Vec<usize>) -> (shadow: Option<Vec<T>>)
        ensures
            shadow is Some <==> picks_fit(picks@, values@.len()),
            shadow matches Some(samples) ==> samples@ == gathered(values@, picks@),
    {
        let mut samples: Vec<T> = Vec::new();
        let mut i: usize = 0;
        while i < picks.len()
            invariant
                i <= picks@.len(),
                samples@.len() == i,
                forall|j: int| 0 <= j < i ==> #[trigger] picks@[j] < values@.len(),
                forall|j: int| 0 <= j < i ==> samples@[j] == values@[picks@[j] as int],
            decreases picks@.len() - i,
        {
            let pick = picks[i];
            if pick >= values.len() {
                return None;
            }
            samples.push(values[pick]);
            i += 1;
        }
        assert(samples@ =~= gathered(values@, picks@));
        Some(samples)
    }

    /// Samples a shadow from `values`: `shadow_depth` values, each found at a
    /// position drawn from `rng`. Without values there is nothing to sample
    /// and the shadow is empty.
    pub fn create_shadow<T: Copy>(&self, values: &Vec<T>, rng: &mut rand::rngs::StdRng) -> (shadow:
        Vec<T>)
        ensures
            values@.len() == 0 ==> shadow@.len() == 0,
            values@.len() > 0 ==> exists|picks: Seq<usize>|
                {
                    &&& picks.len() == self.shadow_depth
                    &&& picks_fit(picks, values@.len())
                    &&& shadow@ == #[trigger] gathered(values@, picks)
                },
    {
        let size = values.len();
        if size == 0 {
            return Vec::new();
        }
        let mut picks: Vec<usize> = Vec::new();
        let mut i: usize = 0;
        while i < self.shadow_depth
            invariant
                i <= self.shadow_depth,
                size == values@.len(),
                size > 0,
                picks@.len() == i,
                picks_fit(picks@, size as nat),
            decreases self.shadow_depth - i,
        {
            let pick = random_index(rng, size);
            picks.push(pick);
            i += 1;
        }
        match Self::shadow_of(values, &picks) {
            Some(shadow) => shadow,
            None => Vec::new(),
        }
    }
}

} // verus!
