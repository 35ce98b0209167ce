//! Gate matrices: for every executable gate its matrix, in the smallest
//! space that gate acts on.
//!
//! Entries are written symbolically, as members of the small set of
//! constants the supported gates need, so that a matrix can be stated and
//! compared exactly. Turning a coefficient into a number is left to the
//! caller's amplitude type.

use vstd::prelude::*;
use crate::error::SimError;
use crate::quantum::qasm::QuantumOperation;
use crate::quantum_simulation::embedding::controlled_x_image;

verus! {

/// A matrix entry.
#[derive(Clone, Copy, Debug, PartialEq, Eq, Structural)]
pub enum Coefficient {
    /// 0
    Zero,
    /// 1
    One,
    /// -1
    MinusOne,
    /// The imaginary unit i.
    ImaginaryUnit,
    /// -i
    MinusImaginaryUnit,
    /// 1/sqrt(2)
    InverseRootTwo,
    /// -1/sqrt(2)
    MinusInverseRootTwo,
    /// The phase factor of the T gate, cos(pi/8) + i sin(pi/8).
    PhaseT,
}

/// A square matrix of coefficients, stored row by row.
#[derive(Clone, Debug)]
pub struct GateMatrix {
    /// Number of rows, which is the number of columns: 2 for a single-qubit
    /// gate, 4 for a two-qubit gate.
    pub size: usize,
    /// The `size * size` entries, row by row.
    pub entries: Vec<Coefficient>,
}

impl GateMatrix {
    /// The entry in row `row` and column `column`.
    pub open spec fn entry(&self, row: int, column: int) -> Coefficient {
        self.entries@[row * self.size + column]
    }
}

/// The gates on one qubit.
#[derive(Clone, Copy, Debug, PartialEq, Eq, Structural)]
pub enum SingleQubitGate {
    Identity,
    Hadamard,
    PauliX,
    PauliY,
    PauliZ,
    PhaseT,
}

/// Whether the tag names a gate on one qubit.
pub open spec fn is_single_qubit(op: QuantumOperation) -> bool {
    op is I || op is H || op is X || op is Y || op is Z || op is T
}

/// The single-qubit gate that a tag names, if it names one.
pub open spec fn single_qubit_gate(op: QuantumOperation) -> Option<SingleQubitGate> {
    match op {
        QuantumOperation::I => Some(SingleQubitGate::Identity),
        QuantumOperation::H => Some(SingleQubitGate::Hadamard),
        QuantumOperation::X => Some(SingleQubitGate::PauliX),
        QuantumOperation::Y => Some(SingleQubitGate::PauliY),
        QuantumOperation::Z => Some(SingleQubitGate::PauliZ),
        QuantumOperation::T => Some(SingleQubitGate::PhaseT),
        _ => None,
    }
}

/// The single-qubit gate that a tag names, if it names one.
pub fn classify(op: &QuantumOperation) -> (gate: Option<SingleQubitGate>)
    ensures
        gate == single_qubit_gate(*op),
        gate is Some <==> is_single_qubit(*op),
        gate matches Some(g) ==> g.tag() == *op,
{
    match op {
        QuantumOperation::I => Some(SingleQubitGate::Identity),
        QuantumOperation::H => Some(SingleQubitGate::Hadamard),
        QuantumOperation::X => Some(SingleQubitGate::PauliX),
        QuantumOperation::Y => Some(SingleQubitGate::PauliY),
        QuantumOperation::Z => Some(SingleQubitGate::PauliZ),
        QuantumOperation::T => Some(SingleQubitGate::PhaseT),
        _ => None,
    }
}

impl SingleQubitGate {
    /// The tag that names this gate.
    pub open spec fn tag(self) -> QuantumOperation {
        match self {
            SingleQubitGate::Identity => QuantumOperation::I,
            SingleQubitGate::Hadamard => QuantumOperation::H,
            SingleQubitGate::PauliX => QuantumOperation::X,
            SingleQubitGate::PauliY => QuantumOperation::Y,
            SingleQubitGate::PauliZ => QuantumOperation::Z,
            SingleQubitGate::PhaseT => QuantumOperation::T,
        }
    }

    /// The tag that names this gate.
    pub fn operation(self) -> (op: QuantumOperation)
        ensures
            op == self.tag(),
            single_qubit_gate(op) == Some(self),
    {
        match self {
            SingleQubitGate::Identity => QuantumOperation::I,
            SingleQubitGate::Hadamard => QuantumOperation::H,
            SingleQubitGate::PauliX => QuantumOperation::X,
            SingleQubitGate::PauliY => QuantumOperation::Y,
            SingleQubitGate::PauliZ => QuantumOperation::Z,
            SingleQubitGate::PhaseT => QuantumOperation::T,
        }
    }

    /// The 2x2 matrix of this gate.
    pub fn matrix(self) -> (matrix: GateMatrix)
        ensures
            matrix.size == 2,
            matrix.entries@ == matrix_entries(self.tag()),
            matrix.entries@.len() == 4,
    {
        let zero = Coefficient::Zero;
        let one = Coefficient::One;
        let entries = match self {
            SingleQubitGate::Identity => vec![one, zero, zero, one],
            SingleQubitGate::Hadamard => vec![
                Coefficient::InverseRootTwo,
                Coefficient::InverseRootTwo,
                Coefficient::InverseRootTwo,
                Coefficient::MinusInverseRootTwo,
            ],
            SingleQubitGate::PauliX => vec![zero, one, one, zero],
            SingleQubitGate::PauliY => vec![
                zero,
                Coefficient::MinusImaginaryUnit,
                Coefficient::ImaginaryUnit,
                zero,
            ],
            SingleQubitGate::PauliZ => vec![one, zero, zero, Coefficient::MinusOne],
            SingleQubitGate::PhaseT => vec![one, zero, zero, Coefficient::PhaseT],
        };
        assert(entries@ =~= matrix_entries(self.tag()));
        GateMatrix { size: 2, entries }
    }
}

/// The entries of the matrix of a gate, row by row; empty for a tag that has
/// no matrix.
///
/// For the two-qubit controlled-X the local basis index has the control as
/// its high bit and the target as its low bit.
pub open spec fn matrix_entries(op: QuantumOperation) -> Seq<Coefficient> {
    match op {
        QuantumOperation::I => seq![
            Coefficient::One,
            Coefficient::Zero,
            Coefficient::Zero,
            Coefficient::One,
        ],
        QuantumOperation::H => seq![
            Coefficient::InverseRootTwo,
            Coefficient::InverseRootTwo,
            Coefficient::InverseRootTwo,
            Coefficient::MinusInverseRootTwo,
        ],
        QuantumOperation::X => seq![
            Coefficient::Zero,
            Coefficient::One,
            Coefficient::One,
            Coefficient::Zero,
        ],
        QuantumOperation::Y => seq![
            Coefficient::Zero,
            Coefficient::MinusImaginaryUnit,
            Coefficient::ImaginaryUnit,
            Coefficient::Zero,
        ],
        QuantumOperation::Z => seq![
            Coefficient::One,
            Coefficient::Zero,
            Coefficient::Zero,
            Coefficient::MinusOne,
        ],
        QuantumOperation::T => seq![
            Coefficient::One,
            Coefficient::Zero,
            Coefficient::Zero,
            Coefficient::PhaseT,
        ],
        QuantumOperation::CX => seq![
            Coefficient::One,
            Coefficient::Zero,
            Coefficient::Zero,
            Coefficient::Zero,
            Coefficient::Zero,
            Coefficient::One,
            Coefficient::Zero,
            Coefficient::Zero,
            Coefficient::Zero,
            Coefficient::Zero,
            Coefficient::Zero,
            Coefficient::One,
            Coefficient::Zero,
            Coefficient::Zero,
            Coefficient::One,
            Coefficient::Zero,
        ],
        QuantumOperation::Measure => Seq::empty(),
        QuantumOperation::Custom(_) => Seq::empty(),
    }
}

/// The number of rows of the matrix of a gate: 2 on one qubit, 4 on two.
pub open spec fn matrix_size(op: QuantumOperation) -> usize {
    if is_single_qubit(op) {
        2
    } else if op is CX {
        4
    } else {
        0
    }
}

/// The controlled-X matrix is the matrix of the index map of the embedding:
/// the entry in row `r` and column `c` is 1 when controlled-X, with the
/// control on local qubit 1 and the target on local qubit 0, sends basis
/// state `c` to `r`, and 0 otherwise.
pub proof fn lemma_controlled_x_matrix(row: usize, column: usize)
    requires
        row < 4,
        column < 4,
    ensures
        matrix_entries(QuantumOperation::CX)[row * 4 + column] == if row == controlled_x_image(
            column,
            1,
            0,
        ) {
            Coefficient::One
        } else {
            Coefficient::Zero
        },
{
    assert(controlled_x_image(0, 1, 0) == 0 && controlled_x_image(1, 1, 0) == 1
        && controlled_x_image(2, 1, 0) == 3 && controlled_x_image(3, 1, 0) == 2) by (bit_vector);
}

/// The matrix of a gate.
///
/// A measurement and a custom operation have no matrix and are refused with
/// `UnknownGateKind`; no tag is ever treated as the identity by default.
pub fn gate_matrix(op: &QuantumOperation) -> (res: Result<GateMatrix, SimError>)
    ensures
        res is Ok <==> is_single_qubit(*op) || *op is CX,
        res is Err ==> res == Err::<GateMatrix, SimError>(SimError::UnknownGateKind),
        res matches Ok(matrix) ==> {
            &&& matrix.size == matrix_size(*op)
            &&& matrix.entries@ == matrix_entries(*op)
            &&& matrix.entries@.len() == matrix.size * matrix.size
        },
{
    match classify(op) {
        Some(gate) => {
            let matrix = gate.matrix();
            assert(matrix.entries@.len() == 2usize * 2usize);
            Ok(matrix)
        },
        None => match op {
            QuantumOperation::CX => {
                let zero = Coefficient::Zero;
                let one = Coefficient::One;
                let entries = vec![
                    one,
                    zero,
                    zero,
                    zero,
                    zero,
                    one,
                    zero,
                    zero,
                    zero,
                    zero,
                    zero,
                    one,
                    zero,
                    zero,
                    one,
                    zero,
                ];
                assert(entries@ =~= matrix_entries(QuantumOperation::CX));
                assert(entries@.len() == 4usize * 4usize);
                Ok(GateMatrix { size: 4, entries })
            },
            _ => Err(SimError::UnknownGateKind),
        },
    }
}

} // verus!
