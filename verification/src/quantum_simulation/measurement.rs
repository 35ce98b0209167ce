//! Measurement: which basis state a random draw selects, and the collapse
//! that follows.
//!
//! The caller tabulates, for every basis state in index order, its
//! probability and the running total of the probabilities up to and
//! including it, both as levels. Selection is inverse-CDF sampling over that
//! table: the outcome is the first basis state whose running total reaches
//! the draw.

use vstd::prelude::*;
use crate::error::SimError;
use crate::quantum_simulation::state_vector::{basis_amplitudes, StateVector};

verus! {

/// One row of a measurement table: the probability of a basis state and the
/// running total up to and including it.
#[derive(Clone, Copy, Debug, PartialEq, Eq)]
pub struct Weight {
    pub probability: u64,
    pub cumulative: u64,
}

/// What a measurement returns: the sampled basis state and the probability
/// it had.
#[derive(Clone, Copy, Debug, PartialEq, Eq)]
pub struct MeasurementOutcome {
    pub index: usize,
    pub probability: u64,
}

/// The total probability mass of the table lies below `epsilon`, so there is
/// no distribution to sample from. An empty table has no mass at all.
pub open spec fn decayed(table: Seq<Weight>, epsilon: u64) -> bool {
    table.len() == 0 || table.last().cumulative < epsilon
}

/// `index` is the outcome that `sample` selects from `table`: the running
/// total stays below the sample at every earlier basis state and reaches it
/// at `index`. Should the total never reach the sample, which rounding can
/// cause, the last basis state is the outcome.
pub open spec fn selects(table: Seq<Weight>, sample: u64, index: int) -> bool {
    &&& 0 <= index < table.len()
    &&& forall|j: int| 0 <= j < index ==> (#[trigger] table[j]).cumulative < sample
    &&& (table[index].cumulative >= sample || index == table.len() - 1)
}

/// `table` is that of a register collapsed onto basis state `k`: no mass
/// before `k`, and the whole mass `unit` from `k` on.
pub open spec fn collapsed_table(table: Seq<Weight>, k: int, unit: u64) -> bool {
    &&& 0 <= k < table.len()
    &&& forall|j: int| 0 <= j < k ==> (#[trigger] table[j]).cumulative == 0
    &&& forall|j: int| k <= j < table.len() ==> (#[trigger] table[j]).cumulative == unit
}

/// A sample selects at most one outcome.
pub proof fn lemma_selection_is_unique(table: Seq<Weight>, sample: u64, i: int, j: int)
    requires
        selects(table, sample, i),
        selects(table, sample, j),
    ensures
        i == j,
{
    if i < j {
        assert(table[i].cumulative < sample);
    } else if j < i {
        assert(table[j].cumulative < sample);
    }
}

/// Measuring a register that has just collapsed onto basis state `k` gives
/// `k` again: its table is not decayed for any threshold up to the unit
/// mass, and every sample above zero and up to the unit mass selects `k`.
pub proof fn lemma_repeated_measurement(
    table: Seq<Weight>,
    k: int,
    unit: u64,
    sample: u64,
    epsilon: u64,
    index: int,
)
    requires
        collapsed_table(table, k, unit),
        0 < sample <= unit,
        epsilon <= unit,
        selects(table, sample, index),
    ensures
        !decayed(table, epsilon),
        index == k,
{
    assert(table[table.len() - 1].cumulative == unit);
    assert(selects(table, sample, k));
    lemma_selection_is_unique(table, sample, index, k);
}

/// Row `i` of `table` is what `probabilities[i]` and the running total
/// `totals[i]` give: the total is what `accumulate` makes of the total
/// before it (`zero` before the first row) and the probability, and the row
/// holds the levels of the probability and of the total.
pub open spec fn row_tabulated<P, Accumulate: Fn(P, P) -> P, Level: Fn(P) -> u64>(
    accumulate: Accumulate,
    level: Level,
    zero: P,
    probabilities: Seq<P>,
    totals: Seq<P>,
    table: Seq<Weight>,
    i: int,
) -> bool {
    &&& call_ensures(
        accumulate,
        (
            if i == 0 {
                zero
            } else {
                totals[i - 1]
            },
            probabilities[i],
        ),
        totals[i],
    )
    &&& call_ensures(level, (probabilities[i],), table[i].probability)
    &&& call_ensures(level, (totals[i],), table[i].cumulative)
}

/// `table` is the measurement table of `probabilities`, with `totals` as
/// its running totals.
pub open spec fn tabulated<P, Accumulate: Fn(P, P) -> P, Level: Fn(P) -> u64>(
    accumulate: Accumulate,
    level: Level,
    zero: P,
    probabilities: Seq<P>,
    totals: Seq<P>,
    table: Seq<Weight>,
) -> bool {
    &&& totals.len() == probabilities.len()
    &&& table.len() == probabilities.len()
    &&& forall|i: int|
        0 <= i < probabilities.len() ==> #[trigger] row_tabulated(
            accumulate,
            level,
            zero,
            probabilities,
            totals,
            table,
            i,
        )
}

/// Builds the measurement table of a list of probabilities: the cumulative
/// distribution, row by row in index order.
///
/// `accumulate` adds a probability to a running total, `zero` is the empty
/// total, and `level` gives the level of a probability.
pub fn tabulate<P: Copy, Accumulate: Fn(P, P) -> P, Level: Fn(P) -> u64>(
    probabilities: &Vec<P>,
    zero: P,
    accumulate: Accumulate,
    level: Level,
) -> (table: Vec<Weight>)
    requires
        forall|a: P, b: P| call_requires(accumulate, (a, b)),
        forall|a: P| call_requires(level, (a,)),
    ensures
        exists|totals: Seq<P>| #[trigger]
            tabulated(accumulate, level, zero, probabilities@, totals, table@),
{
    let mut table: Vec<Weight> = Vec::new();
    let mut total = zero;
    let ghost mut totals: Seq<P> = Seq::empty();
    let mut i: usize = 0;
    while i < probabilities.len()
        invariant
            i <= probabilities@.len(),
            table@.len() == i,
            totals.len() == i,
            total == if i == 0 {
                zero
            } else {
                totals[i - 1]
            },
            forall|a: P, b: P| call_requires(accumulate, (a, b)),
            forall|a: P| call_requires(level, (a,)),
            forall|j: int|
                0 <= j < i ==> #[trigger] row_tabulated(
                    accumulate,
                    level,
                    zero,
                    probabilities@,
                    totals,
                    table@,
                    j,
                ),
        decreases probabilities@.len() - i,
    {
        let probability = probabilities[i];
        let next = accumulate(total, probability);
        let row = Weight { probability: level(probability), cumulative: level(next) };
        proof {
            let earlier_totals = totals;
            let earlier_table = table@;
            totals = totals.push(next);
            assert forall|j: int| 0 <= j < i + 1 implies #[trigger] row_tabulated(
                accumulate,
                level,
                zero,
                probabilities@,
                totals,
                earlier_table.push(row),
                j,
            ) by {
                if j < i {
                    assert(row_tabulated(
                        accumulate,
                        level,
                        zero,
                        probabilities@,
                        earlier_totals,
                        earlier_table,
                        j,
                    ));
                }
            }
        }
        table.push(row);
        total = next;
        i += 1;
    }
    proof {
        assert(tabulated(accumulate, level, zero, probabilities@, totals, table@));
    }
    table
}

/// `probabilities` holds, for every basis state, what `squared_magnitude`
/// makes of its amplitude.
pub open spec fn probabilities_of<A, P, Square: Fn(A) -> P>(
    squared_magnitude: Square,
    state: Seq<A>,
    probabilities: Seq<P>,
) -> bool {
    &&& probabilities.len() == state.len()
    &&& forall|i: int|
        0 <= i < state.len() ==> call_ensures(
            squared_magnitude,
            (state[i],),
            #[trigger] probabilities[i],
        )
}

/// The arithmetic is exact on no mass and on the whole mass: the amplitudes
/// zero and one have the probabilities `nothing` and `everything`, adding
/// nothing changes neither, and their levels are 0 and `unit`.
pub open spec fn exact_on_extremes<
    A,
    P,
    Square: Fn(A) -> P,
    Accumulate: Fn(P, P) -> P,
    Level: Fn(P) -> u64,
>(
    squared_magnitude: Square,
    accumulate: Accumulate,
    level: Level,
    zero: A,
    one: A,
    nothing: P,
    everything: P,
    unit: u64,
) -> bool {
    &&& forall|p: P| call_ensures(squared_magnitude, (zero,), p) ==> p == nothing
    &&& forall|p: P| call_ensures(squared_magnitude, (one,), p) ==> p == everything
    &&& forall|p: P| call_ensures(accumulate, (nothing, nothing), p) ==> p == nothing
    &&& forall|p: P| call_ensures(accumulate, (nothing, everything), p) ==> p == everything
    &&& forall|p: P| call_ensures(accumulate, (everything, nothing), p) ==> p == everything
    &&& forall|l: u64| call_ensures(level, (nothing,), l) ==> l == 0
    &&& forall|l: u64| call_ensures(level, (everything,), l) ==> l == unit
}

/// Measuring twice in succession gives the same basis state both times.
///
/// After a measurement with outcome `k` the register is in basis state `k`.
/// Whatever table is then built from it, with arithmetic that is exact on
/// no mass and on the whole mass, every sample above zero selects `k`
/// again, and the table is not decayed.
pub proof fn lemma_measuring_twice<
    A,
    P,
    Square: Fn(A) -> P,
    Accumulate: Fn(P, P) -> P,
    Level: Fn(P) -> u64,
>(
    squared_magnitude: Square,
    accumulate: Accumulate,
    level: Level,
    zero: A,
    one: A,
    nothing: P,
    everything: P,
    unit: u64,
    state: Seq<A>,
    k: int,
    probabilities: Seq<P>,
    totals: Seq<P>,
    table: Seq<Weight>,
    sample: u64,
    epsilon: u64,
    index: int,
)
    requires
        0 <= k < state.len(),
        state == basis_amplitudes(state.len(), k, zero, one),
        probabilities_of(squared_magnitude, state, probabilities),
        tabulated(accumulate, level, nothing, probabilities, totals, table),
        exact_on_extremes(
            squared_magnitude,
            accumulate,
            level,
            zero,
            one,
            nothing,
            everything,
            unit,
        ),
        0 < sample <= unit,
        epsilon <= unit,
        selects(table, sample, index),
    ensures
        index == k,
        !decayed(table, epsilon),
{
    assert forall|i: int| 0 <= i < state.len() implies probabilities[i] == if i == k {
        everything
    } else {
        nothing
    } by {
        assert(call_ensures(squared_magnitude, (state[i],), probabilities[i]));
    }
    lemma_running_totals_of_collapsed(
        accumulate,
        level,
        nothing,
        everything,
        k,
        probabilities,
        totals,
        table,
        state.len() as int,
    );
    assert forall|j: int| 0 <= j < k implies (#[trigger] table[j]).cumulative == 0 by {
        assert(row_tabulated(accumulate, level, nothing, probabilities, totals, table, j));
    }
    assert forall|j: int| k <= j < table.len() implies (#[trigger] table[j]).cumulative == unit by {
        assert(row_tabulated(accumulate, level, nothing, probabilities, totals, table, j));
    }
    lemma_repeated_measurement(table, k, unit, sample, epsilon, index);
}

/// The running totals of a collapsed register: nothing before the basis
/// state that holds the mass, everything from there on.
proof fn lemma_running_totals_of_collapsed<P, Accumulate: Fn(P, P) -> P, Level: Fn(P) -> u64>(
    accumulate: Accumulate,
    level: Level,
    nothing: P,
    everything: P,
    k: int,
    probabilities: Seq<P>,
    totals: Seq<P>,
    table: Seq<Weight>,
    n: int,
)
    requires
        0 <= k < probabilities.len(),
        0 <= n <= probabilities.len(),
        tabulated(accumulate, level, nothing, probabilities, totals, table),
        forall|i: int|
            0 <= i < probabilities.len() ==> probabilities[i] == if i == k {
                everything
            } else {
                nothing
            },
        forall|p: P| call_ensures(accumulate, (nothing, nothing), p) ==> p == nothing,
        forall|p: P| call_ensures(accumulate, (nothing, everything), p) ==> p == everything,
        forall|p: P| call_ensures(accumulate, (everything, nothing), p) ==> p == everything,
    ensures
        forall|i: int|
            0 <= i < n ==> #[trigger] totals[i] == if i < k {
                nothing
            } else {
                everything
            },
    decreases n,
{
    if n > 0 {
        lemma_running_totals_of_collapsed(
            accumulate,
            level,
            nothing,
            everything,
            k,
            probabilities,
            totals,
            table,
            n - 1,
        );
        let i = n - 1;
        assert(row_tabulated(accumulate, level, nothing, probabilities, totals, table, i));
        if i > 0 {
            assert(totals[i - 1] == if i - 1 < k {
                nothing
            } else {
                everything
            });
        }
    }
}

/// Chooses the outcome that `sample` selects from `table`.
///
/// Fails with `DecayedState` exactly when the table's total mass lies below
/// `epsilon`.
pub fn sample_outcome(table: &Vec<Weight>, sample: u64, epsilon: u64) -> (res: Result<
    MeasurementOutcome,
    SimError,
>)
    ensures
        res is Err <==> decayed(table@, epsilon),
        res is Err ==> res == Err::<MeasurementOutcome, SimError>(SimError::DecayedState),
        res matches Ok(outcome) ==> {
            &&& selects(table@, sample, outcome.index as int)
            &&& outcome.probability == table@[outcome.index as int].probability
        },
{
    let n = table.len();
    if n == 0 || table[n - 1].cumulative < epsilon {
        return Err(SimError::DecayedState);
    }
    let mut i: usize = 0;
    while i < n - 1 && table[i].cumulative < sample
        invariant
            n == table@.len(),
            n > 0,
            i <= n - 1,
            forall|j: int| 0 <= j < i ==> (#[trigger] table@[j]).cumulative < sample,
        decreases n - i,
    {
        i += 1;
    }
    Ok(MeasurementOutcome { index: i, probability: table[i].probability })
}

/// Measures the register: chooses the outcome that `sample` selects from
/// `table` and collapses the register onto it.
///
/// A table that does not have one row per basis state is refused with
/// `IndexOutOfRange`; otherwise a decayed table is refused with
/// `DecayedState`. On refusal the register is untouched.
pub fn measure<A: Copy>(
    state: &mut StateVector<A>,
    table: &Vec<Weight>,
    sample: u64,
    epsilon: u64,
) -> (res: Result<MeasurementOutcome, SimError>)
    requires
        old(state).well_formed(),
    ensures
        final(state).well_formed(),
        final(state).qubits() == old(state).qubits(),
        final(state).zero() == old(state).zero(),
        final(state).one() == old(state).one(),
        table@.len() != old(state)@.len() ==> res == Err::<MeasurementOutcome, SimError>(
            SimError::IndexOutOfRange,
        ),
        table@.len() == old(state)@.len() && decayed(table@, epsilon) ==> res == Err::<
            MeasurementOutcome,
            SimError,
        >(SimError::DecayedState),
        table@.len() == old(state)@.len() && !decayed(table@, epsilon) ==> res is Ok,
        res is Err ==> final(state)@ == old(state)@,
        res matches Ok(outcome) ==> {
            &&& selects(table@, sample, outcome.index as int)
            &&& outcome.probability == table@[outcome.index as int].probability
            &&& final(state).is_basis_state(outcome.index as int)
        },
{
    if table.len() != state.len() {
        return Err(SimError::IndexOutOfRange);
    }
    let outcome = sample_outcome(table, sample, epsilon)?;
    state.collapse(outcome.index)?;
    Ok(outcome)
}

} // verus!
