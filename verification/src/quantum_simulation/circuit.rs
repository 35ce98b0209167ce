//! Circuits: gate instructions and the rules that decide whether a register
//! can execute them.

use vstd::prelude::*;
use crate::error::SimError;
use crate::quantum::qasm::QuantumOperation;
use crate::quantum_simulation::embedding::{admissible, MAX_QUBITS};
use crate::quantum_simulation::gates::{single_qubit_gate, SingleQubitGate};

verus! {

/// One instruction of a circuit. A circuit is a sequence of instructions,
/// executed in order.
#[derive(Debug, Clone)]
pub struct GateInstruction {
    /// What to do.
    pub gate: QuantumOperation,
    /// The qubit acted on.
    pub target: usize,
    /// The controlling qubit. A controlled gate needs one, distinct from the
    /// target; other gates do not read it.
    pub control: Option<usize>,
}

/// An instruction that has passed validation for a particular register.
#[derive(Clone, Copy, Debug, PartialEq, Eq, Structural)]
pub enum Step {
    /// Apply a single-qubit gate to `target`.
    Single { gate: SingleQubitGate, target: usize },
    /// Apply controlled-X.
    ControlledX { control: usize, target: usize },
    /// Measure the register.
    Measure { target: usize },
}

/// What validation makes of an instruction on a register of `qubits` qubits.
///
/// A custom operation is never executable. Otherwise the target has to name
/// a qubit of the register, and a controlled-X needs a control that names a
/// different qubit of the register.
pub open spec fn checked(instruction: GateInstruction, qubits: usize) -> Result<Step, SimError> {
    if instruction.gate is Custom {
        Err(SimError::UnknownGateKind)
    } else if instruction.target >= qubits {
        Err(SimError::IndexOutOfRange)
    } else if instruction.gate is CX {
        match instruction.control {
            Some(control) => if control < qubits && control != instruction.target {
                Ok(Step::ControlledX { control, target: instruction.target })
            } else {
                Err(SimError::IndexOutOfRange)
            },
            None => Err(SimError::IndexOutOfRange),
        }
    } else if instruction.gate is Measure {
        Ok(Step::Measure { target: instruction.target })
    } else {
        Ok(
            Step::Single {
                gate: single_qubit_gate(instruction.gate)->0,
                target: instruction.target,
            },
        )
    }
}

/// The step addresses only qubits of a register of `qubits` qubits, and a
/// controlled step has distinct control and target.
pub open spec fn step_fits(step: Step, qubits: usize) -> bool {
    match step {
        Step::Single { gate, target } => target < qubits,
        Step::ControlledX { control, target } => control < qubits && target < qubits && control
            != target,
        Step::Measure { target } => target < qubits,
    }
}

impl GateInstruction {
    /// An instruction for a gate without control.
    pub fn new(gate: QuantumOperation, target: usize) -> (instruction: GateInstruction)
        ensures
            instruction.gate == gate,
            instruction.target == target,
            instruction.control == None::<usize>,
    {
        GateInstruction { gate, target, control: None }
    }

    /// An instruction for a gate with a control qubit.
    pub fn controlled(gate: QuantumOperation, control: usize, target: usize) -> (instruction:
        GateInstruction)
        ensures
            instruction.gate == gate,
            instruction.target == target,
            instruction.control == Some(control),
    {
        GateInstruction { gate, target, control: Some(control) }
    }

    /// Validates the instruction for a register of `qubits` qubits. A step
    /// that passes fits the register.
    pub fn validate(&self, qubits: usize) -> (res: Result<Step, SimError>)
        ensures
            res == checked(*self, qubits),
            res matches Ok(step) ==> step_fits(step, qubits),
    {
        let target = self.target;
        match &self.gate {
            QuantumOperation::Custom(_) => Err(SimError::UnknownGateKind),
            QuantumOperation::CX => {
                if target >= qubits {
                    return Err(SimError::IndexOutOfRange);
                }
                match self.control {
                    Some(control) => {
                        if control < qubits && control != target {
                            Ok(Step::ControlledX { control, target })
                        } else {
                            Err(SimError::IndexOutOfRange)
                        }
                    },
                    None => Err(SimError::IndexOutOfRange),
                }
            },
            QuantumOperation::Measure => {
                if target >= qubits {
                    Err(SimError::IndexOutOfRange)
                } else {
                    Ok(Step::Measure { target })
                }
            },
            QuantumOperation::I => single(SingleQubitGate::Identity, target, qubits),
            QuantumOperation::H => single(SingleQubitGate::Hadamard, target, qubits),
            QuantumOperation::X => single(SingleQubitGate::PauliX, target, qubits),
            QuantumOperation::Y => single(SingleQubitGate::PauliY, target, qubits),
            QuantumOperation::Z => single(SingleQubitGate::PauliZ, target, qubits),
            QuantumOperation::T => single(SingleQubitGate::PhaseT, target, qubits),
        }
    }
}

fn single(gate: SingleQubitGate, target: usize, qubits: usize) -> (res: Result<Step, SimError>)
    ensures
        res == if target >= qubits {
            Err::<Step, SimError>(SimError::IndexOutOfRange)
        } else {
            Ok(Step::Single { gate, target })
        },
{
    if target >= qubits {
        Err(SimError::IndexOutOfRange)
    } else {
        Ok(Step::Single { gate, target })
    }
}

/// `k` is the position of the first instruction of the circuit that
/// validation refuses.
pub open spec fn first_refused(circuit: Seq<GateInstruction>, qubits: usize, k: int) -> bool {
    &&& 0 <= k < circuit.len()
    &&& checked(circuit[k], qubits) is Err
    &&& forall|j: int| 0 <= j < k ==> (#[trigger] checked(circuit[j], qubits)) is Ok
}

/// Every instruction of the circuit passes validation.
pub open spec fn executable(circuit: Seq<GateInstruction>, qubits: usize) -> bool {
    forall|j: int| 0 <= j < circuit.len() ==> (#[trigger] checked(circuit[j], qubits)) is Ok
}

/// Validates a whole circuit for a register of `qubits` qubits before
/// anything is executed.
///
/// An inadmissible register size is refused with `InvalidQubitCount`.
/// Otherwise the result is the error of the first instruction that
/// validation refuses, or, when there is none, the validated steps in
/// circuit order.
pub fn plan_circuit(qubits: usize, circuit: &Vec<GateInstruction>) -> (res: Result<
    Vec<Step>,
    SimError,
>)
    ensures
        !admissible(qubits) ==> res == Err::<Vec<Step>, SimError>(SimError::InvalidQubitCount),
        admissible(qubits) ==> (res is Ok <==> executable(circuit@, qubits)),
        admissible(qubits) ==> (res matches Err(e) ==> exists|k: int|
            first_refused(circuit@, qubits, k) && #[trigger] checked(circuit@[k], qubits) == Err::<
                Step,
                SimError,
            >(e)),
        res matches Ok(steps) ==> {
            &&& steps@.len() == circuit@.len()
            &&& forall|j: int|
                0 <= j < circuit@.len() ==> checked(circuit@[j], qubits) == Ok::<Step, SimError>(
                    #[trigger] steps@[j],
                )
        },
{
    if qubits == 0 || qubits > MAX_QUBITS {
        return Err(SimError::InvalidQubitCount);
    }
    let mut steps: Vec<Step> = Vec::new();
    let mut i: usize = 0;
    while i < circuit.len()
        invariant
            admissible(qubits),
            i <= circuit@.len(),
            steps@.len() == i,
            forall|j: int|
                0 <= j < i ==> checked(circuit@[j], qubits) == Ok::<Step, SimError>(
                    #[trigger] steps@[j],
                ),
        decreases circuit@.len() - i,
    {
        match circuit[i].validate(qubits) {
            Ok(step) => {
                steps.push(step);
            },
            Err(e) => {
                proof {
                    assert forall|j: int| 0 <= j < i implies (#[trigger] checked(
                        circuit@[j],
                        qubits,
                    )) is Ok by {
                        assert(checked(circuit@[j], qubits) == Ok::<Step, SimError>(steps@[j]));
                    }
                    assert(first_refused(circuit@, qubits, i as int));
                }
                return Err(e);
            },
        }
        i += 1;
    }
    proof {
        assert forall|j: int| 0 <= j < circuit@.len() implies (#[trigger] checked(
            circuit@[j],
            qubits,
        )) is Ok by {
            assert(checked(circuit@[j], qubits) == Ok::<Step, SimError>(steps@[j]));
        }
    }
    Ok(steps)
}

} // verus!
