//! Laws of the embedding, stated over the relations that the operations of
//! the amplitude buffer guarantee.

use vstd::prelude::*;
use crate::quantum_simulation::embedding::{
    admissible,
    bit_at,
    controlled_x_image,
    dimension,
    flip_bit,
    lemma_controlled_x,
    lemma_dimension,
    lemma_flip_bit,
    lemma_flip_bit_keeps_others,
};
use crate::quantum_simulation::state_vector::{
    basis_amplitudes,
    bit_flip_step,
    controlled_x_step,
    single_qubit_step,
};

verus! {

/// Controlled-X acts on a basis state as it acts on the index.
///
/// From basis state `k` the register goes to the basis state that
/// controlled-X assigns to `k`: with the control qubit of `k` at 0 that is
/// `k` itself and nothing changes, with the control qubit at 1 it is `k`
/// with the target qubit flipped.
pub proof fn lemma_controlled_x_on_basis_state<A>(
    qubits: usize,
    control: usize,
    target: usize,
    k: usize,
    zero: A,
    one: A,
    before: Seq<A>,
    after: Seq<A>,
)
    requires
        admissible(qubits),
        control < qubits,
        target < qubits,
        control != target,
        k < dimension(qubits),
        before == basis_amplitudes(dimension(qubits) as nat, k as int, zero, one),
        controlled_x_step(control, target, before, after),
    ensures
        after == basis_amplitudes(
            dimension(qubits) as nat,
            controlled_x_image(k, control, target) as int,
            zero,
            one,
        ),
        !bit_at(k, control) ==> after == before,
        bit_at(k, control) ==> controlled_x_image(k, control, target) == flip_bit(k, target)
            && bit_at(flip_bit(k, target), target) == !bit_at(k, target),
{
    let image = controlled_x_image(k, control, target);
    lemma_controlled_x(qubits, control, target, k);
    lemma_flip_bit(qubits, target, k);
    let expected = basis_amplitudes(dimension(qubits) as nat, image as int, zero, one);
    assert forall|i: int| 0 <= i < after.len() implies after[i] == expected[i] by {
        let iu = i as usize;
        lemma_controlled_x(qubits, control, target, iu);
        assert(after[iu as int] == before[controlled_x_image(iu, control, target) as int]);
    }
    assert(after =~= expected);
}

/// Controlled-X undoes itself: applied twice with the same control and
/// target it leaves every amplitude where it was.
pub proof fn lemma_controlled_x_twice<A>(
    qubits: usize,
    control: usize,
    target: usize,
    start: Seq<A>,
    middle: Seq<A>,
    end: Seq<A>,
)
    requires
        admissible(qubits),
        control < qubits,
        target < qubits,
        control != target,
        start.len() == dimension(qubits),
        controlled_x_step(control, target, start, middle),
        controlled_x_step(control, target, middle, end),
    ensures
        end == start,
{
    assert forall|i: int| 0 <= i < end.len() implies end[i] == start[i] by {
        let iu = i as usize;
        let image = controlled_x_image(iu, control, target);
        lemma_controlled_x(qubits, control, target, iu);
        assert(end[iu as int] == middle[image as int]);
        assert(middle[image as int] == start[controlled_x_image(image, control, target) as int]);
    }
    assert(end =~= start);
}

/// Pauli-X undoes itself: applied twice to the same qubit it leaves every
/// amplitude where it was.
pub proof fn lemma_bit_flip_twice<A>(
    qubits: usize,
    target: usize,
    start: Seq<A>,
    middle: Seq<A>,
    end: Seq<A>,
)
    requires
        admissible(qubits),
        target < qubits,
        start.len() == dimension(qubits),
        bit_flip_step(target, start, middle),
        bit_flip_step(target, middle, end),
    ensures
        end == start,
{
    assert forall|i: int| 0 <= i < end.len() implies end[i] == start[i] by {
        let iu = i as usize;
        let partner = flip_bit(iu, target);
        lemma_flip_bit(qubits, target, iu);
        assert(end[iu as int] == middle[partner as int]);
        assert(middle[partner as int] == start[flip_bit(partner, target) as int]);
    }
    assert(end =~= start);
}

/// An involution stays one when embedded.
///
/// If applying `kernel` to a pair of amplitudes and then to its result gives
/// the pair back, then applying the single-qubit gate twice to the same
/// qubit of a register gives the register's state back, whichever qubit it
/// is.
pub proof fn lemma_involution_embeds<A, F: Fn(A, A) -> (A, A)>(
    kernel: F,
    qubits: usize,
    target: usize,
    start: Seq<A>,
    middle: Seq<A>,
    end: Seq<A>,
)
    requires
        admissible(qubits),
        target < qubits,
        start.len() == dimension(qubits),
        single_qubit_step(kernel, target, start, middle),
        single_qubit_step(kernel, target, middle, end),
        forall|a: A, b: A, c: A, d: A, e: A, f: A|
            #[trigger] call_ensures(kernel, (a, b), (c, d)) && #[trigger] call_ensures(
                kernel,
                (c, d),
                (e, f),
            ) ==> e == a && f == b,
    ensures
        end == start,
{
    assert forall|i: int| 0 <= i < end.len() implies end[i] == start[i] by {
        let iu = i as usize;
        lemma_flip_bit(qubits, target, iu);
        let lo = if bit_at(iu, target) {
            flip_bit(iu, target)
        } else {
            iu
        };
        let hi = flip_bit(lo, target);
        lemma_flip_bit(qubits, target, lo);
        assert(call_ensures(
            kernel,
            (start[lo as int], start[hi as int]),
            (middle[lo as int], middle[hi as int]),
        ));
        assert(call_ensures(
            kernel,
            (middle[lo as int], middle[hi as int]),
            (end[lo as int], end[hi as int]),
        ));
    }
    assert(end =~= start);
}

/// The sum of the weights of all amplitudes of a state. With the squared
/// magnitude as weight this is the total probability mass.
pub open spec fn total_weight<A>(state: Seq<A>, weight: spec_fn(A) -> int) -> int
    decreases state.len(),
{
    if state.len() == 0 {
        0
    } else {
        total_weight(state.drop_last(), weight) + weight(state.last())
    }
}

/// The sum of a sequence of integers.
pub open spec fn sum(values: Seq<int>) -> int
    decreases values.len(),
{
    if values.len() == 0 {
        0
    } else {
        sum(values.drop_last()) + values.last()
    }
}

/// How much the weight at each basis state has changed between two states.
pub open spec fn weight_change<A>(before: Seq<A>, after: Seq<A>, weight: spec_fn(A) -> int) -> Seq<
    int,
> {
    Seq::new(before.len(), |i: int| weight(after[i]) - weight(before[i]))
}

proof fn lemma_sum_of_concatenation(a: Seq<int>, b: Seq<int>)
    ensures
        sum(a + b) == sum(a) + sum(b),
    decreases b.len(),
{
    if b.len() == 0 {
        assert(a + b =~= a);
    } else {
        assert((a + b).drop_last() =~= a + b.drop_last());
        lemma_sum_of_concatenation(a, b.drop_last());
    }
}

proof fn lemma_sum_of_opposites(a: Seq<int>, b: Seq<int>)
    requires
        a.len() == b.len(),
        forall|i: int| 0 <= i < a.len() ==> a[i] + b[i] == 0,
    ensures
        sum(a) + sum(b) == 0,
    decreases a.len(),
{
    if a.len() > 0 {
        lemma_sum_of_opposites(a.drop_last(), b.drop_last());
    }
}

proof fn lemma_total_weight_change<A>(before: Seq<A>, after: Seq<A>, weight: spec_fn(A) -> int)
    requires
        before.len() == after.len(),
    ensures
        total_weight(after, weight) - total_weight(before, weight) == sum(
            weight_change(before, after, weight),
        ),
    decreases before.len(),
{
    if before.len() > 0 {
        lemma_total_weight_change(before.drop_last(), after.drop_last(), weight);
        assert(weight_change(before, after, weight).drop_last() =~= weight_change(
            before.drop_last(),
            after.drop_last(),
            weight,
        ));
    }
}

proof fn lemma_halves(qubits: usize, q: usize, index: usize)
    by (bit_vector)
    requires
        admissible(qubits),
        qubits >= 2,
        q < qubits,
        index < dimension((qubits - 1) as usize),
    ensures
        dimension(qubits) == 2 * dimension((qubits - 1) as usize),
        q == qubits - 1 ==> !bit_at(index, q) && flip_bit(index, q) == index + dimension(
            (qubits - 1) as usize,
        ),
        q < qubits - 1 ==> flip_bit(index, q) < dimension((qubits - 1) as usize),
        q < qubits - 1 ==> bit_at((index + dimension((qubits - 1) as usize)) as usize, q) == bit_at(
            index,
            q,
        ),
        q < qubits - 1 ==> flip_bit((index + dimension((qubits - 1) as usize)) as usize, q)
            == flip_bit(index, q) + dimension((qubits - 1) as usize),
{
}

/// The sum of the values at basis state `lo` and at the basis state that
/// differs from it in qubit `q`.
spec fn pair_sum(values: Seq<int>, q: usize, lo: usize) -> int {
    values[lo as int] + values[flip_bit(lo, q) as int]
}

/// Every pair of basis states that differ in qubit `q` holds values that
/// cancel.
spec fn cancels_in_pairs(values: Seq<int>, q: usize) -> bool {
    forall|lo: usize|
        lo < values.len() && !bit_at(lo, q) ==> #[trigger] pair_sum(values, q, lo) == 0
}

/// Values that cancel within every pair of basis states differing in qubit
/// `q` add up to zero over the whole register.
proof fn lemma_paired_sum_vanishes(qubits: usize, q: usize, values: Seq<int>)
    requires
        admissible(qubits),
        q < qubits,
        values.len() == dimension(qubits),
        cancels_in_pairs(values, q),
    ensures
        sum(values) == 0,
    decreases qubits,
{
    if qubits == 1 {
        assert(dimension(1) == 2 && flip_bit(0, 0) == 1 && !bit_at(0, 0)) by (bit_vector);
        assert(pair_sum(values, q, 0) == 0);
        let first = values.drop_last();
        assert(first.drop_last().len() == 0);
        assert(sum(first.drop_last()) == 0);
        assert(first.last() == values[0]);
        assert(sum(first) == values[0]);
    } else {
        let smaller = (qubits - 1) as usize;
        let half = dimension(smaller);
        lemma_dimension(smaller);
        lemma_halves(qubits, q, 0);
        let low = values.subrange(0, half as int);
        let high = values.subrange(half as int, values.len() as int);
        assert(values =~= low + high);
        lemma_sum_of_concatenation(low, high);
        if q == smaller {
            assert forall|i: int| 0 <= i < low.len() implies low[i] + high[i] == 0 by {
                lemma_halves(qubits, q, i as usize);
                assert(pair_sum(values, q, i as usize) == 0);
            }
            lemma_sum_of_opposites(low, high);
        } else {
            assert forall|lo: usize| lo < low.len() && !bit_at(lo, q) implies #[trigger] pair_sum(
                low,
                q,
                lo,
            ) == 0 by {
                lemma_halves(qubits, q, lo);
                assert(pair_sum(values, q, lo) == 0);
            }
            lemma_paired_sum_vanishes(smaller, q, low);
            assert forall|lo: usize| lo < high.len() && !bit_at(lo, q) implies #[trigger] pair_sum(
                high,
                q,
                lo,
            ) == 0 by {
                lemma_halves(qubits, q, lo);
                assert(pair_sum(values, q, (lo + half) as usize) == 0);
            }
            lemma_paired_sum_vanishes(smaller, q, high);
        }
    }
}

/// A gate that keeps the weight of every pair keeps the weight of the
/// register.
///
/// If `kernel` never changes the sum of the weights of the two amplitudes
/// it acts on, then the single-qubit gate it defines leaves the total weight
/// of the state unchanged, whichever qubit it addresses.
pub proof fn lemma_single_qubit_keeps_total_weight<A, F: Fn(A, A) -> (A, A)>(
    kernel: F,
    weight: spec_fn(A) -> int,
    qubits: usize,
    target: usize,
    before: Seq<A>,
    after: Seq<A>,
)
    requires
        admissible(qubits),
        target < qubits,
        before.len() == dimension(qubits),
        single_qubit_step(kernel, target, before, after),
        forall|a: A, b: A, c: A, d: A| #[trigger]
            call_ensures(kernel, (a, b), (c, d)) ==> weight(c) + weight(d) == weight(a) + weight(b),
    ensures
        total_weight(after, weight) == total_weight(before, weight),
{
    let change = weight_change(before, after, weight);
    assert forall|lo: usize| lo < change.len() && !bit_at(lo, target) implies #[trigger] pair_sum(
        change,
        target,
        lo,
    ) == 0 by {
        lemma_flip_bit(qubits, target, lo);
        let hi = flip_bit(lo, target);
        assert(call_ensures(
            kernel,
            (before[lo as int], before[hi as int]),
            (after[lo as int], after[hi as int]),
        ));
    }
    lemma_paired_sum_vanishes(qubits, target, change);
    lemma_total_weight_change(before, after, weight);
}

/// Controlled-X leaves the total weight of the state unchanged, for every
/// weight.
pub proof fn lemma_controlled_x_keeps_total_weight<A>(
    weight: spec_fn(A) -> int,
    qubits: usize,
    control: usize,
    target: usize,
    before: Seq<A>,
    after: Seq<A>,
)
    requires
        admissible(qubits),
        control < qubits,
        target < qubits,
        control != target,
        before.len() == dimension(qubits),
        controlled_x_step(control, target, before, after),
    ensures
        total_weight(after, weight) == total_weight(before, weight),
{
    let change = weight_change(before, after, weight);
    assert forall|lo: usize| lo < change.len() && !bit_at(lo, target) implies #[trigger] pair_sum(
        change,
        target,
        lo,
    ) == 0 by {
        lemma_flip_bit(qubits, target, lo);
        lemma_flip_bit_keeps_others(target, control, lo);
        let hi = flip_bit(lo, target);
        assert(after[lo as int] == before[controlled_x_image(lo, control, target) as int]);
        assert(after[hi as int] == before[controlled_x_image(hi, control, target) as int]);
    }
    lemma_paired_sum_vanishes(qubits, target, change);
    lemma_total_weight_change(before, after, weight);
}

} // verus!
