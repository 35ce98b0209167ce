//! Running a circuit: the order in which instructions are validated and
//! executed, when a run stops, and which measurement outcome it reports.
//!
//! What executing a step does to the caller's state is the caller's
//! business and reaches this module as a closure. The state is handed to
//! the closure and handed back, so a run owns its state from start to end.

use vstd::prelude::*;
use crate::error::SimError;
use crate::quantum_simulation::circuit::{checked, step_fits, GateInstruction, Step};
use crate::quantum_simulation::embedding::{admissible, MAX_QUBITS};
use crate::quantum_simulation::measurement::MeasurementOutcome;

verus! {

/// The outcome that a run reports after one more step: the step's own
/// outcome if it measured, the outcome reported so far if it did not.
pub open spec fn latest(
    so_far: Option<MeasurementOutcome>,
    step_outcome: Option<MeasurementOutcome>,
) -> Option<MeasurementOutcome> {
    if step_outcome is Some {
        step_outcome
    } else {
        so_far
    }
}

/// The outcome that a run reports: that of the last step that measured, or
/// none when no step did.
pub open spec fn last_reported(outcomes: Seq<Option<MeasurementOutcome>>) -> Option<
    MeasurementOutcome,
>
    decreases outcomes.len(),
{
    if outcomes.len() == 0 {
        None
    } else {
        latest(last_reported(outcomes.drop_last()), outcomes.last())
    }
}

/// Instruction `j` of the circuit passes validation, and executing the
/// validated step leads from `states[j]` to `states[j + 1]` with outcome
/// `outcomes[j]`.
pub open spec fn step_taken<S, F: Fn(S, Step) -> Result<(S, Option<MeasurementOutcome>), SimError>>(
    execute: F,
    qubits: usize,
    circuit: Seq<GateInstruction>,
    states: Seq<S>,
    outcomes: Seq<Option<MeasurementOutcome>>,
    j: int,
) -> bool {
    &&& checked(circuit[j], qubits) is Ok
    &&& call_ensures(
        execute,
        (states[j], checked(circuit[j], qubits)->Ok_0),
        Ok::<(S, Option<MeasurementOutcome>), SimError>((states[j + 1], outcomes[j])),
    )
}

/// `states` and `outcomes` record a run of the leading instructions of
/// `circuit` from `initial`: one outcome per instruction taken, the state
/// before the first instruction and the state after each.
pub open spec fn records<S, F: Fn(S, Step) -> Result<(S, Option<MeasurementOutcome>), SimError>>(
    execute: F,
    qubits: usize,
    circuit: Seq<GateInstruction>,
    initial: S,
    states: Seq<S>,
    outcomes: Seq<Option<MeasurementOutcome>>,
) -> bool {
    &&& outcomes.len() <= circuit.len()
    &&& states.len() == outcomes.len() + 1
    &&& states[0] == initial
    &&& forall|j: int|
        0 <= j < outcomes.len() ==> #[trigger] step_taken(
            execute,
            qubits,
            circuit,
            states,
            outcomes,
            j,
        )
}

/// The run recorded by `states` and `outcomes` went through the whole
/// circuit, ended in `state` and reports `last`.
pub open spec fn completes<S, F: Fn(S, Step) -> Result<(S, Option<MeasurementOutcome>), SimError>>(
    execute: F,
    qubits: usize,
    circuit: Seq<GateInstruction>,
    initial: S,
    states: Seq<S>,
    outcomes: Seq<Option<MeasurementOutcome>>,
    state: S,
    last: Option<MeasurementOutcome>,
) -> bool {
    &&& records(execute, qubits, circuit, initial, states, outcomes)
    &&& outcomes.len() == circuit.len()
    &&& states.last() == state
    &&& last == last_reported(outcomes)
}

/// The run recorded by `states` and `outcomes` stopped with `error` at the
/// first instruction it did not take: validation refused that instruction
/// with this error, or executing it failed with this error.
pub open spec fn stops<S, F: Fn(S, Step) -> Result<(S, Option<MeasurementOutcome>), SimError>>(
    execute: F,
    qubits: usize,
    circuit: Seq<GateInstruction>,
    initial: S,
    states: Seq<S>,
    outcomes: Seq<Option<MeasurementOutcome>>,
    error: SimError,
) -> bool {
    let k = outcomes.len() as int;
    &&& records(execute, qubits, circuit, initial, states, outcomes)
    &&& k < circuit.len()
    &&& (checked(circuit[k], qubits) == Err::<Step, SimError>(error) || (checked(
        circuit[k],
        qubits,
    ) is Ok && call_ensures(
        execute,
        (states.last(), checked(circuit[k], qubits)->Ok_0),
        Err::<(S, Option<MeasurementOutcome>), SimError>(error),
    )))
}

/// Runs a circuit on a register of `qubits` qubits, starting from `initial`.
///
/// Instructions are taken in circuit order. Each is validated when its turn
/// comes and, if it passes, executed by `execute`, which receives the state
/// and the validated step and returns the new state and, for a measurement,
/// its outcome. The run returns the final state and the outcome of the last
/// measurement, if any instruction measured.
///
/// An inadmissible register size fails the run with `InvalidQubitCount`
/// before anything is executed. Otherwise the run stops at the first
/// instruction that validation refuses or `execute` fails on, and returns
/// that error and nothing else.
pub fn run<S, F: Fn(S, Step) -> Result<(S, Option<MeasurementOutcome>), SimError>>(
    qubits: usize,
    circuit: &Vec<GateInstruction>,
    initial: S,
    execute: F,
) -> (res: Result<(S, Option<MeasurementOutcome>), SimError>)
    requires
        forall|state: S, step: Step|
            step_fits(step, qubits) ==> call_requires(execute, (state, step)),
    ensures
        !admissible(qubits) ==> res == Err::<(S, Option<MeasurementOutcome>), SimError>(
            SimError::InvalidQubitCount,
        ),
        admissible(qubits) ==> match res {
            Ok((state, last)) => exists|states: Seq<S>, outcomes: Seq<Option<MeasurementOutcome>>|
                #[trigger] completes(
                    execute,
                    qubits,
                    circuit@,
                    initial,
                    states,
                    outcomes,
                    state,
                    last,
                ),
            Err(error) => exists|states: Seq<S>, outcomes: Seq<Option<MeasurementOutcome>>|
                #[trigger] stops(execute, qubits, circuit@, initial, states, outcomes, error),
        },
{
    if qubits == 0 || qubits > MAX_QUBITS {
        return Err(SimError::InvalidQubitCount);
    }
    let mut state = initial;
    let mut last: Option<MeasurementOutcome> = None;
    let ghost mut states: Seq<S> = seq![initial];
    let ghost mut outcomes: Seq<Option<MeasurementOutcome>> = Seq::empty();
    let mut i: usize = 0;
    while i < circuit.len()
        invariant
            admissible(qubits),
            i <= circuit@.len(),
            forall|state: S, step: Step|
                step_fits(step, qubits) ==> call_requires(execute, (state, step)),
            records(execute, qubits, circuit@, initial, states, outcomes),
            outcomes.len() == i,
            states.last() == state,
            last == last_reported(outcomes),
        decreases circuit@.len() - i,
    {
        let step = match circuit[i].validate(qubits) {
            Ok(step) => step,
            Err(error) => {
                proof {
                    assert(stops(execute, qubits, circuit@, initial, states, outcomes, error));
                }
                return Err(error);
            },
        };
        match execute(state, step) {
            Ok((next, outcome)) => {
                proof {
                    let earlier_states = states;
                    let earlier_outcomes = outcomes;
                    states = states.push(next);
                    outcomes = outcomes.push(outcome);
                    assert(outcomes.drop_last() =~= earlier_outcomes);
                    assert forall|j: int| 0 <= j < outcomes.len() implies #[trigger] step_taken(
                        execute,
                        qubits,
                        circuit@,
                        states,
                        outcomes,
                        j,
                    ) by {
                        if j < i {
                            assert(step_taken(
                                execute,
                                qubits,
                                circuit@,
                                earlier_states,
                                earlier_outcomes,
                                j,
                            ));
                        }
                    }
                }
                state = next;
                if outcome.is_some() {
                    last = outcome;
                }
            },
            Err(error) => {
                proof {
                    assert(stops(execute, qubits, circuit@, initial, states, outcomes, error));
                }
                return Err(error);
            },
        }
        i += 1;
    }
    proof {
        assert(completes(execute, qubits, circuit@, initial, states, outcomes, state, last));
    }
    let res = Ok((state, last));
    proof {
        let (s, l) = res->Ok_0;
        assert(completes(execute, qubits, circuit@, initial, states, outcomes, s, l));
    }
    res
}

} // verus!
