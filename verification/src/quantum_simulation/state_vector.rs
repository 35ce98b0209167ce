//! The amplitude buffer of a register and the operations that move
//! amplitudes between basis states.
//!
//! The buffer is generic in the amplitude type. A gate reaches it as a
//! closure on the amplitudes of one pair of basis states; this module owns
//! the embedding: which pairs there are, in which order the closure sees a
//! pair, and where its results are stored.

use vstd::prelude::*;
use crate::error::SimError;
use crate::quantum::state::QuantumState;
use crate::quantum_simulation::embedding::{
    admissible,
    bit_at,
    bit_mask,
    controlled_x_image,
    dimension,
    dimension_of,
    flip_bit,
    lemma_dimension,
    lemma_flip_bit,
    lemma_flip_bit_keeps_others,
};

verus! {

/// The amplitudes of basis state `k` of a `dim`-dimensional register: `one`
/// at `k`, `zero` everywhere else.
pub open spec fn basis_amplitudes<A>(dim: nat, k: int, zero: A, one: A) -> Seq<A> {
    Seq::new(
        dim,
        |i: int|
            if i == k {
                one
            } else {
                zero
            },
    )
}

/// `dim` copies of one amplitude.
pub open spec fn uniform_amplitudes<A>(dim: nat, amplitude: A) -> Seq<A> {
    Seq::new(dim, |i: int| amplitude)
}

/// `after` is `before` with a single-qubit gate applied to qubit `target`.
///
/// The basis states fall into pairs that differ in the target qubit only.
/// For every such pair, `kernel` relates the old amplitudes, target-0 state
/// first, to the new ones. Each basis state lies in exactly one pair, so no
/// amplitude is left unaccounted for.
pub open spec fn single_qubit_step<A, F: Fn(A, A) -> (A, A)>(
    kernel: F,
    target: usize,
    before: Seq<A>,
    after: Seq<A>,
) -> bool {
    &&& after.len() == before.len()
    &&& forall|lo: usize|
        lo < before.len() && !bit_at(lo, target) ==> call_ensures(
            kernel,
            (before[lo as int], before[flip_bit(lo, target) as int]),
            (#[trigger] after[lo as int], after[flip_bit(lo, target) as int]),
        )
}

/// `after` is `before` with the amplitudes of every pair of basis states
/// that differ in qubit `target` exchanged.
pub open spec fn bit_flip_step<A>(target: usize, before: Seq<A>, after: Seq<A>) -> bool {
    &&& after.len() == before.len()
    &&& forall|i: usize|
        i < before.len() ==> #[trigger] after[i as int] == before[flip_bit(i, target) as int]
}

/// `after` is `before` with controlled-X applied: the amplitude found at a
/// basis state is the one that stood at the state controlled-X maps to it.
pub open spec fn controlled_x_step<A>(
    control: usize,
    target: usize,
    before: Seq<A>,
    after: Seq<A>,
) -> bool {
    &&& after.len() == before.len()
    &&& forall|i: usize|
        i < before.len() ==> #[trigger] after[i as int] == before[controlled_x_image(
            i,
            control,
            target,
        ) as int]
}

/// `after` holds, at the basis states that `selected` marks, an image of the
/// old amplitude under `f`, and the old amplitude everywhere else. A basis
/// state beyond the end of `selected` counts as unmarked.
pub open spec fn selective_step<A, F: Fn(A) -> A>(
    f: F,
    selected: Seq<bool>,
    before: Seq<A>,
    after: Seq<A>,
) -> bool {
    &&& after.len() == before.len()
    &&& forall|i: int|
        0 <= i < before.len() ==> if i < selected.len() && selected[i] {
            call_ensures(f, (before[i],), #[trigger] after[i])
        } else {
            after[i] == before[i]
        }
}

/// `after` holds at every basis state an image of the old amplitude under
/// `f`.
pub open spec fn pointwise_step<A, F: Fn(A) -> A>(f: F, before: Seq<A>, after: Seq<A>) -> bool {
    &&& after.len() == before.len()
    &&& forall|i: int| 0 <= i < before.len() ==> call_ensures(f, (before[i],), #[trigger] after[i])
}

/// A unitary gate embedded in the full register: the qubits it addresses
/// and, for a single-qubit gate, its kernel. The embedded operator is never
/// written out as a matrix; its action is fixed by these.
pub enum EmbeddedGate<F> {
    /// A single-qubit gate on `target`, acting on each pair of basis states
    /// that differ in that qubit as `kernel` says.
    Single { target: usize, kernel: F },
    /// Controlled-X.
    ControlledX { control: usize, target: usize },
}

/// Whether a register of `qubits` qubits has the qubits that the embedded
/// gate addresses, distinct where two are named.
pub open spec fn gate_fits<F>(gate: EmbeddedGate<F>, qubits: usize) -> bool {
    match gate {
        EmbeddedGate::Single { target, kernel } => target < qubits,
        EmbeddedGate::ControlledX { control, target } => control < qubits && target < qubits
            && control != target,
    }
}

/// `after` is `before` with the embedded gate applied.
pub open spec fn unitary_step<A, F: Fn(A, A) -> (A, A)>(
    gate: EmbeddedGate<F>,
    before: Seq<A>,
    after: Seq<A>,
) -> bool {
    match gate {
        EmbeddedGate::Single { target, kernel } => single_qubit_step(kernel, target, before, after),
        EmbeddedGate::ControlledX { control, target } => controlled_x_step(
            control,
            target,
            before,
            after,
        ),
    }
}

/// The state of a register: one amplitude per basis state, together with the
/// two amplitudes that stand for 0 and 1.
pub struct StateVector<A> {
    qubits: usize,
    zero: A,
    one: A,
    amplitudes: Vec<A>,
}

impl<A> View for StateVector<A> {
    type V = Seq<A>;

    closed spec fn view(&self) -> Seq<A> {
        self.amplitudes@
    }
}

impl<A> StateVector<A> {
    /// Number of qubits of the register.
    pub closed spec fn qubits(&self) -> usize {
        self.qubits
    }

    /// The amplitude that stands for 0.
    pub closed spec fn zero(&self) -> A {
        self.zero
    }

    /// The amplitude that stands for 1.
    pub closed spec fn one(&self) -> A {
        self.one
    }

    /// The buffer holds one amplitude per basis state of an admissible
    /// register. Constructors establish this and every operation keeps it.
    pub closed spec fn well_formed(&self) -> bool {
        &&& admissible(self.qubits)
        &&& self.amplitudes@.len() == dimension(self.qubits)
    }

    /// The register is in basis state `k`: amplitude one there, zero
    /// elsewhere.
    pub open spec fn is_basis_state(&self, k: int) -> bool {
        &&& 0 <= k < self@.len()
        &&& self@ == basis_amplitudes(self@.len(), k, self.zero(), self.one())
    }

    /// What a well-formed state guarantees about its shape.
    pub proof fn lemma_shape(&self)
        requires
            self.well_formed(),
        ensures
            admissible(self.qubits()),
            self@.len() == dimension(self.qubits()),
            2 <= self@.len() <= 0x100_0000,
    {
        lemma_dimension(self.qubits);
    }
}

impl<A: Copy> StateVector<A> {
    /// The register in basis state `|0...0>`.
    pub fn new(qubits: usize, zero: A, one: A) -> (res: Result<Self, SimError>)
        ensures
            res is Ok <==> admissible(qubits),
            res is Err ==> res == Err::<Self, SimError>(SimError::InvalidQubitCount),
            res matches Ok(state) ==> {
                &&& state.well_formed()
                &&& state.qubits() == qubits
                &&& state.zero() == zero
                &&& state.one() == one
                &&& state.is_basis_state(0)
            },
    {
        let dim = dimension_of(qubits)?;
        let mut amplitudes: Vec<A> = Vec::new();
        amplitudes.push(one);
        let mut i: usize = 1;
        while i < dim
            invariant
                1 <= i <= dim,
                amplitudes@.len() == i,
                amplitudes@[0] == one,
                forall|j: int| 1 <= j < i ==> amplitudes@[j] == zero,
            decreases dim - i,
        {
            amplitudes.push(zero);
            i += 1;
        }
        assert(amplitudes@ =~= basis_amplitudes(dim as nat, 0, zero, one));
        Ok(StateVector { qubits, zero, one, amplitudes })
    }

    /// The register with the same amplitude at every basis state.
    pub fn uniform(qubits: usize, zero: A, one: A, amplitude: A) -> (res: Result<Self, SimError>)
        ensures
            res is Ok <==> admissible(qubits),
            res is Err ==> res == Err::<Self, SimError>(SimError::InvalidQubitCount),
            res matches Ok(state) ==> {
                &&& state.well_formed()
                &&& state.qubits() == qubits
                &&& state.zero() == zero
                &&& state.one() == one
                &&& state@ == uniform_amplitudes(dimension(qubits) as nat, amplitude)
            },
    {
        let dim = dimension_of(qubits)?;
        let mut amplitudes: Vec<A> = Vec::new();
        let mut i: usize = 0;
        while i < dim
            invariant
                i <= dim,
                amplitudes@.len() == i,
                forall|j: int| 0 <= j < i ==> amplitudes@[j] == amplitude,
            decreases dim - i,
        {
            amplitudes.push(amplitude);
            i += 1;
        }
        assert(amplitudes@ =~= uniform_amplitudes(dim as nat, amplitude));
        Ok(StateVector { qubits, zero, one, amplitudes })
    }

    /// The register with the given amplitudes, one per basis state in index
    /// order.
    ///
    /// An inadmissible register size is refused with `InvalidQubitCount`;
    /// otherwise a buffer that does not hold exactly one amplitude per basis
    /// state is refused with `IndexOutOfRange`.
    pub fn from_amplitudes(qubits: usize, zero: A, one: A, amplitudes: Vec<A>) -> (res: Result<
        Self,
        SimError,
    >)
        ensures
            !admissible(qubits) ==> res == Err::<Self, SimError>(SimError::InvalidQubitCount),
            admissible(qubits) && amplitudes@.len() != dimension(qubits) ==> res == Err::<
                Self,
                SimError,
            >(SimError::IndexOutOfRange),
            admissible(qubits) && amplitudes@.len() == dimension(qubits) ==> res is Ok,
            res matches Ok(state) ==> {
                &&& state.well_formed()
                &&& state.qubits() == qubits
                &&& state.zero() == zero
                &&& state.one() == one
                &&& state@ == amplitudes@
            },
    {
        let dim = dimension_of(qubits)?;
        if amplitudes.len() != dim {
            return Err(SimError::IndexOutOfRange);
        }
        Ok(StateVector { qubits, zero, one, amplitudes })
    }

    /// Number of qubits of the register.
    pub fn qubit_count(&self) -> (n: usize)
        ensures
            n == self.qubits(),
    {
        self.qubits
    }

    /// Number of basis states, which is the number of amplitudes held.
    pub fn len(&self) -> (n: usize)
        ensures
            n == self@.len(),
    {
        self.amplitudes.len()
    }

    /// The amplitudes, indexed by basis state.
    pub fn amplitudes(&self) -> (a: &Vec<A>)
        ensures
            a@ == self@,
    {
        &self.amplitudes
    }

    /// Gives up the register and returns its amplitudes.
    pub fn into_amplitudes(self) -> (a: Vec<A>)
        ensures
            a@ == self@,
    {
        self.amplitudes
    }

    /// The amplitude of basis state `index`, if the register has that state.
    pub fn amplitude(&self, index: usize) -> (a: Option<A>)
        ensures
            a == if index < self@.len() {
                Some(self@[index as int])
            } else {
                None
            },
    {
        if index < self.amplitudes.len() {
            Some(self.amplitudes[index])
        } else {
            None
        }
    }

    /// Applies a single-qubit gate to qubit `target`.
    ///
    /// `kernel` is that gate in its own two-dimensional space: given the
    /// amplitudes of a pair of basis states that differ only in the target
    /// qubit, target-0 state first, it returns the pair's new amplitudes.
    /// A target outside the register is refused and the state is untouched.
    pub fn apply_single_qubit<F: Fn(A, A) -> (A, A)>(&mut self, target: usize, kernel: F) -> (res:
        Result<(), SimError>)
        requires
            old(self).well_formed(),
            forall|a: A, b: A| call_requires(kernel, (a, b)),
        ensures
            final(self).well_formed(),
            final(self).qubits() == old(self).qubits(),
            final(self).zero() == old(self).zero(),
            final(self).one() == old(self).one(),
            res is Ok <==> target < old(self).qubits(),
            res is Err ==> res == Err::<(), SimError>(SimError::IndexOutOfRange) && final(self)@
                == old(self)@,
            res is Ok ==> single_qubit_step(kernel, target, old(self)@, final(self)@),
    {
        if target >= self.qubits {
            return Err(SimError::IndexOutOfRange);
        }
        let ghost before = self.amplitudes@;
        let qubits = self.qubits;
        let mask: usize = 1usize << target;
        let dim = self.amplitudes.len();
        let mut i: usize = 0;
        while i < dim
            invariant
                i <= dim,
                target < qubits,
                admissible(qubits),
                qubits == self.qubits,
                self.zero == old(self).zero,
                self.one == old(self).one,
                mask == bit_mask(target),
                dim == dimension(qubits),
                self.amplitudes@.len() == dim,
                before.len() == dim,
                forall|a: A, b: A| call_requires(kernel, (a, b)),
                forall|lo: usize|
                    lo < i && !bit_at(lo, target) ==> call_ensures(
                        kernel,
                        (before[lo as int], before[flip_bit(lo, target) as int]),
                        (
                            #[trigger] self.amplitudes@[lo as int],
                            self.amplitudes@[flip_bit(lo, target) as int],
                        ),
                    ),
                forall|j: usize|
                    i <= j < dim && !(bit_at(j, target) && flip_bit(j, target) < i)
                        ==> #[trigger] self.amplitudes@[j as int] == before[j as int],
            decreases dim - i,
        {
            if i & mask == 0 {
                proof {
                    lemma_flip_bit(qubits, target, i);
                }
                let hi = i ^ mask;
                let (a, b) = kernel(self.amplitudes[i], self.amplitudes[hi]);
                let ghost prev = self.amplitudes@;
                self.amplitudes.set(i, a);
                self.amplitudes.set(hi, b);
                proof {
                    assert forall|lo: usize| lo < i + 1 && !bit_at(lo, target) implies call_ensures(
                        kernel,
                        (before[lo as int], before[flip_bit(lo, target) as int]),
                        (
                            #[trigger] self.amplitudes@[lo as int],
                            self.amplitudes@[flip_bit(lo, target) as int],
                        ),
                    ) by {
                        lemma_flip_bit(qubits, target, lo);
                        if lo < i {
                            assert(prev[lo as int] == self.amplitudes@[lo as int]);
                        }
                    }
                }
            }
            proof {
                assert forall|j: usize|
                    i + 1 <= j < dim && !(bit_at(j, target) && flip_bit(j, target) < i + 1)
                    implies #[trigger] self.amplitudes@[j as int] == before[j as int] by {
                    lemma_flip_bit(qubits, target, j);
                }
            }
            i += 1;
        }
        Ok(())
    }

    /// Applies Pauli-X to qubit `target`: every pair of basis states that
    /// differ in the target qubit exchange their amplitudes.
    pub fn apply_bit_flip(&mut self, target: usize) -> (res: Result<(), SimError>)
        requires
            old(self).well_formed(),
        ensures
            final(self).well_formed(),
            final(self).qubits() == old(self).qubits(),
            final(self).zero() == old(self).zero(),
            final(self).one() == old(self).one(),
            res is Ok <==> target < old(self).qubits(),
            res is Err ==> res == Err::<(), SimError>(SimError::IndexOutOfRange) && final(self)@
                == old(self)@,
            res is Ok ==> bit_flip_step(target, old(self)@, final(self)@),
    {
        let exchange = |a: A, b: A| -> (r: (A, A))
            ensures
                r == (b, a),
            { (b, a) };
        let res = self.apply_single_qubit(target, exchange);
        proof {
            if res is Ok {
                let before = old(self)@;
                let after = self@;
                let qubits = self.qubits;
                assert forall|i: usize| i < before.len() implies #[trigger] after[i as int]
                    == before[flip_bit(i, target) as int] by {
                    lemma_flip_bit(qubits, target, i);
                    let lo = if bit_at(i, target) {
                        flip_bit(i, target)
                    } else {
                        i
                    };
                    lemma_flip_bit(qubits, target, lo);
                    assert(call_ensures(
                        exchange,
                        (before[lo as int], before[flip_bit(lo, target) as int]),
                        (after[lo as int], after[flip_bit(lo, target) as int]),
                    ));
                }
            }
        }
        res
    }

    /// Applies controlled-X with the given control and target qubits.
    ///
    /// Basis states whose control qubit is 0 keep their amplitude; those
    /// whose control qubit is 1 exchange amplitudes with the state that
    /// differs in the target qubit. A qubit outside the register, or control
    /// equal to target, is refused and the state is untouched.
    pub fn apply_controlled_x(&mut self, control: usize, target: usize) -> (res: Result<
        (),
        SimError,
    >)
        requires
            old(self).well_formed(),
        ensures
            final(self).well_formed(),
            final(self).qubits() == old(self).qubits(),
            final(self).zero() == old(self).zero(),
            final(self).one() == old(self).one(),
            res is Ok <==> control < old(self).qubits() && target < old(self).qubits() && control
                != target,
            res is Err ==> res == Err::<(), SimError>(SimError::IndexOutOfRange) && final(self)@
                == old(self)@,
            res is Ok ==> controlled_x_step(control, target, old(self)@, final(self)@),
    {
        if control >= self.qubits || target >= self.qubits || control == target {
            return Err(SimError::IndexOutOfRange);
        }
        let ghost before = self.amplitudes@;
        let qubits = self.qubits;
        let control_mask: usize = 1usize << control;
        let target_mask: usize = 1usize << target;
        let dim = self.amplitudes.len();
        let mut i: usize = 0;
        while i < dim
            invariant
                i <= dim,
                control < qubits,
                target < qubits,
                control != target,
                admissible(qubits),
                qubits == self.qubits,
                self.zero == old(self).zero,
                self.one == old(self).one,
                control_mask == bit_mask(control),
                target_mask == bit_mask(target),
                dim == dimension(qubits),
                self.amplitudes@.len() == dim,
                before.len() == dim,
                forall|j: usize|
                    j < dim ==> #[trigger] self.amplitudes@[j as int] == if exchanged(
                        j,
                        control,
                        target,
                        i,
                    ) {
                        before[flip_bit(j, target) as int]
                    } else {
                        before[j as int]
                    },
            decreases dim - i,
        {
            let ghost prev = self.amplitudes@;
            if i & control_mask != 0 && i & target_mask == 0 {
                proof {
                    lemma_flip_bit(qubits, target, i);
                    lemma_flip_bit_keeps_others(target, control, i);
                }
                let hi = i ^ target_mask;
                let a = self.amplitudes[i];
                let b = self.amplitudes[hi];
                self.amplitudes.set(i, b);
                self.amplitudes.set(hi, a);
                proof {
                    assert forall|j: usize| j < dim implies #[trigger] self.amplitudes@[j as int]
                        == if exchanged(j, control, target, (i + 1) as usize) {
                        before[flip_bit(j, target) as int]
                    } else {
                        before[j as int]
                    } by {
                        lemma_flip_bit(qubits, target, j);
                        if j == i {
                            assert(!exchanged(hi, control, target, i));
                            assert(prev[hi as int] == before[hi as int]);
                        } else if j == hi {
                            assert(!exchanged(i, control, target, i));
                            assert(prev[i as int] == before[i as int]);
                        } else {
                            assert(self.amplitudes@[j as int] == prev[j as int]);
                            assert(exchanged(j, control, target, (i + 1) as usize) == exchanged(
                                j,
                                control,
                                target,
                                i,
                            ));
                        }
                    }
                }
            } else {
                proof {
                    assert forall|j: usize| j < dim implies #[trigger] self.amplitudes@[j as int]
                        == if exchanged(j, control, target, (i + 1) as usize) {
                        before[flip_bit(j, target) as int]
                    } else {
                        before[j as int]
                    } by {
                        lemma_flip_bit(qubits, target, j);
                        lemma_flip_bit_keeps_others(target, control, j);
                        assert(self.amplitudes@[j as int] == prev[j as int]);
                        assert(exchanged(j, control, target, (i + 1) as usize) == exchanged(
                            j,
                            control,
                            target,
                            i,
                        ));
                    }
                }
            }
            i += 1;
        }
        proof {
            assert forall|j: usize| j < before.len() implies #[trigger] self.amplitudes@[j as int]
                == before[controlled_x_image(j, control, target) as int] by {
                lemma_flip_bit(qubits, target, j);
            }
        }
        Ok(())
    }

    /// Applies an embedded unitary gate. Apart from measurement this is the
    /// one way in which a gate changes the state.
    ///
    /// A gate that addresses a qubit outside the register, or the same qubit
    /// as control and target, is refused and the state is untouched.
    pub fn apply_unitary<F: Fn(A, A) -> (A, A)>(&mut self, gate: EmbeddedGate<F>) -> (res: Result<
        (),
        SimError,
    >)
        requires
            old(self).well_formed(),
            gate matches EmbeddedGate::Single { target, kernel } ==> forall|a: A, b: A|
                call_requires(kernel, (a, b)),
        ensures
            final(self).well_formed(),
            final(self).qubits() == old(self).qubits(),
            final(self).zero() == old(self).zero(),
            final(self).one() == old(self).one(),
            res is Ok <==> gate_fits(gate, old(self).qubits()),
            res is Err ==> res == Err::<(), SimError>(SimError::IndexOutOfRange) && final(self)@
                == old(self)@,
            res is Ok ==> unitary_step(gate, old(self)@, final(self)@),
    {
        match gate {
            EmbeddedGate::Single { target, kernel } => self.apply_single_qubit(target, kernel),
            EmbeddedGate::ControlledX { control, target } => self.apply_controlled_x(
                control,
                target,
            ),
        }
    }

    /// Replaces the amplitude of every basis state that `selected` marks by
    /// its image under `f`; the others stay.
    pub fn transform_selected<F: Fn(A) -> A>(&mut self, selected: &Vec<bool>, f: F)
        requires
            old(self).well_formed(),
            forall|a: A| call_requires(f, (a,)),
        ensures
            final(self).well_formed(),
            final(self).qubits() == old(self).qubits(),
            final(self).zero() == old(self).zero(),
            final(self).one() == old(self).one(),
            selective_step(f, selected@, old(self)@, final(self)@),
    {
        let ghost before = self.amplitudes@;
        let dim = self.amplitudes.len();
        let mut i: usize = 0;
        while i < dim
            invariant
                i <= dim,
                self.qubits == old(self).qubits,
                self.zero == old(self).zero,
                self.one == old(self).one,
                self.amplitudes@.len() == dim,
                before.len() == dim,
                forall|a: A| call_requires(f, (a,)),
                forall|j: int|
                    0 <= j < i ==> if j < selected@.len() && selected@[j] {
                        call_ensures(f, (before[j],), #[trigger] self.amplitudes@[j])
                    } else {
                        self.amplitudes@[j] == before[j]
                    },
                forall|j: int| i <= j < dim ==> #[trigger] self.amplitudes@[j] == before[j],
            decreases dim - i,
        {
            if i < selected.len() && selected[i] {
                let a = f(self.amplitudes[i]);
                self.amplitudes.set(i, a);
            }
            i += 1;
        }
    }

    /// Replaces every amplitude by its image under `f`.
    pub fn transform_all<F: Fn(A) -> A>(&mut self, f: F)
        requires
            old(self).well_formed(),
            forall|a: A| call_requires(f, (a,)),
        ensures
            final(self).well_formed(),
            final(self).qubits() == old(self).qubits(),
            final(self).zero() == old(self).zero(),
            final(self).one() == old(self).one(),
            pointwise_step(f, old(self)@, final(self)@),
    {
        let ghost before = self.amplitudes@;
        let dim = self.amplitudes.len();
        let mut i: usize = 0;
        while i < dim
            invariant
                i <= dim,
                self.qubits == old(self).qubits,
                self.zero == old(self).zero,
                self.one == old(self).one,
                self.amplitudes@.len() == dim,
                before.len() == dim,
                forall|a: A| call_requires(f, (a,)),
                forall|j: int|
                    0 <= j < i ==> call_ensures(f, (before[j],), #[trigger] self.amplitudes@[j]),
                forall|j: int| i <= j < dim ==> #[trigger] self.amplitudes@[j] == before[j],
            decreases dim - i,
        {
            let a = f(self.amplitudes[i]);
            self.amplitudes.set(i, a);
            i += 1;
        }
    }

    /// The probability of every basis state, in index order, where
    /// `squared_magnitude` computes a probability from an amplitude. The
    /// register is only read.
    pub fn probabilities<P, F: Fn(A) -> P>(&self, squared_magnitude: F) -> (p: Vec<P>)
        requires
            forall|a: A| call_requires(squared_magnitude, (a,)),
        ensures
            p@.len() == self@.len(),
            forall|i: int|
                0 <= i < self@.len() ==> call_ensures(
                    squared_magnitude,
                    (self@[i],),
                    #[trigger] p@[i],
                ),
    {
        let dim = self.amplitudes.len();
        let mut p: Vec<P> = Vec::new();
        let mut i: usize = 0;
        while i < dim
            invariant
                i <= dim,
                dim == self.amplitudes@.len(),
                p@.len() == i,
                forall|a: A| call_requires(squared_magnitude, (a,)),
                forall|j: int|
                    0 <= j < i ==> call_ensures(
                        squared_magnitude,
                        (self.amplitudes@[j],),
                        #[trigger] p@[j],
                    ),
            decreases dim - i,
        {
            p.push(squared_magnitude(self.amplitudes[i]));
            i += 1;
        }
        p
    }

    /// Rescales the register to total probability mass one.
    ///
    /// `total` is the present mass as a level and `rescale` divides an
    /// amplitude by the square root of that mass. A mass below `epsilon`
    /// cannot be rescaled: the call fails with `DecayedState` and the
    /// register is untouched.
    pub fn renormalize<F: Fn(A) -> A>(&mut self, total: u64, epsilon: u64, rescale: F) -> (res:
        Result<(), SimError>)
        requires
            old(self).well_formed(),
            forall|a: A| call_requires(rescale, (a,)),
        ensures
            final(self).well_formed(),
            final(self).qubits() == old(self).qubits(),
            final(self).zero() == old(self).zero(),
            final(self).one() == old(self).one(),
            final(self)@.len() == old(self)@.len(),
            res is Ok <==> total >= epsilon,
            res is Err ==> res == Err::<(), SimError>(SimError::DecayedState) && final(self)@
                == old(self)@,
            res is Ok ==> pointwise_step(rescale, old(self)@, final(self)@),
    {
        if total < epsilon {
            return Err(SimError::DecayedState);
        }
        self.transform_all(rescale);
        Ok(())
    }

    /// Collapses the register onto basis state `index`: amplitude one there,
    /// zero everywhere else, whatever the state was. An index outside the
    /// register is refused and the state is untouched.
    pub fn collapse(&mut self, index: usize) -> (res: Result<(), SimError>)
        requires
            old(self).well_formed(),
        ensures
            final(self).well_formed(),
            final(self).qubits() == old(self).qubits(),
            final(self).zero() == old(self).zero(),
            final(self).one() == old(self).one(),
            final(self)@.len() == old(self)@.len(),
            res is Ok <==> index < old(self)@.len(),
            res is Err ==> res == Err::<(), SimError>(SimError::IndexOutOfRange) && final(self)@
                == old(self)@,
            res is Ok ==> final(self).is_basis_state(index as int),
    {
        let dim = self.amplitudes.len();
        if index >= dim {
            return Err(SimError::IndexOutOfRange);
        }
        let zero = self.zero;
        let one = self.one;
        let mut i: usize = 0;
        while i < dim
            invariant
                i <= dim,
                index < dim,
                self.qubits == old(self).qubits,
                self.zero == zero,
                self.one == one,
                zero == old(self).zero,
                one == old(self).one,
                self.amplitudes@.len() == dim,
                forall|j: int|
                    0 <= j < i ==> #[trigger] self.amplitudes@[j] == if j == index {
                        one
                    } else {
                        zero
                    },
            decreases dim - i,
        {
            if i == index {
                self.amplitudes.set(i, one);
            } else {
                self.amplitudes.set(i, zero);
            }
            i += 1;
        }
        assert(self.amplitudes@ =~= basis_amplitudes(dim as nat, index as int, zero, one));
        Ok(())
    }
}

/// Prepares a register for a run.
///
/// A register asked for in superposition starts with the amplitude `spread`
/// at every basis state; any other lifecycle state starts it in `|0...0>`.
pub fn initialize_state<A: Copy>(
    qubits: usize,
    quantum_state: QuantumState,
    zero: A,
    one: A,
    spread: A,
) -> (res: Result<StateVector<A>, SimError>)
    ensures
        res is Ok <==> admissible(qubits),
        res is Err ==> res == Err::<StateVector<A>, SimError>(SimError::InvalidQubitCount),
        res matches Ok(state) ==> {
            &&& state.well_formed()
            &&& state.qubits() == qubits
            &&& state.zero() == zero
            &&& state.one() == one
            &&& if quantum_state == QuantumState::Superposition {
                state@ == uniform_amplitudes(dimension(qubits) as nat, spread)
            } else {
                state.is_basis_state(0)
            }
        },
{
    match quantum_state {
        QuantumState::Superposition => StateVector::uniform(qubits, zero, one, spread),
        _ => StateVector::new(qubits, zero, one),
    }
}

/// Whether, once the controlled-X sweep has passed every basis state below
/// `done`, basis state `j` holds its partner's amplitude.
spec fn exchanged(j: usize, control: usize, target: usize, done: usize) -> bool {
    bit_at(j, control) && if bit_at(j, target) {
        flip_bit(j, target) < done
    } else {
        j < done
    }
}

} // verus!
