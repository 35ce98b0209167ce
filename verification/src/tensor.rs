//! The version history of a tensor.

use vstd::prelude::*;

verus! {

/// The versions a tensor has gone through, oldest first.
pub struct PhylogeneticPath {
    pub versions: Vec<usize>,
}

impl PhylogeneticPath {
    /// Appends the versions of a developmental delta, in their order, to
    /// the history.
    pub fn apply_phylogenetic_delta(&mut self, delta: &Vec<usize>)
        ensures
            final(self).versions@ == old(self).versions@ + delta@,
    {
        let mut i: usize = 0;
        while i < delta.len()
            invariant
                i <= delta@.len(),
                self.versions@ == old(self).versions@ + delta@.subrange(0, i as int),
            decreases delta@.len() - i,
        {
            self.versions.push(delta[i]);
            assert(delta@.subrange(0, i + 1) =~= delta@.subrange(0, i as int).push(
                delta@[i as int],
            ));
            i += 1;
        }
        assert(delta@.subrange(0, i as int) =~= delta@);
    }
}

} // verus!
