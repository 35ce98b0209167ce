use morph::error::SimError;
use morph::quantum::qasm::QuantumOperation;
use morph::quantum_simulation::embedding::controlled_x_index;
use morph::quantum_simulation::gates::{classify, gate_matrix, Coefficient, SingleQubitGate};

use Coefficient::{
    ImaginaryUnit, InverseRootTwo, MinusImaginaryUnit, MinusInverseRootTwo, MinusOne, One, PhaseT,
    Zero,
};

#[test]
fn test_single_qubit_matrices() {
    let cases = [
        (QuantumOperation::I, vec![One, Zero, Zero, One]),
        (
            QuantumOperation::H,
            vec![InverseRootTwo, InverseRootTwo, InverseRootTwo, MinusInverseRootTwo],
        ),
        (QuantumOperation::X, vec![Zero, One, One, Zero]),
        (QuantumOperation::Y, vec![Zero, MinusImaginaryUnit, ImaginaryUnit, Zero]),
        (QuantumOperation::Z, vec![One, Zero, Zero, MinusOne]),
        (QuantumOperation::T, vec![One, Zero, Zero, PhaseT]),
    ];
    for (op, expected) in cases {
        let matrix = gate_matrix(&op).unwrap();
        assert_eq!(matrix.size, 2);
        assert_eq!(matrix.entries, expected);
    }
}

#[test]
fn test_controlled_x_matrix() {
    let matrix = gate_matrix(&QuantumOperation::CX).unwrap();
    assert_eq!(matrix.size, 4);
    assert_eq!(
        matrix.entries,
        vec![
            One, Zero, Zero, Zero, //
            Zero, One, Zero, Zero, //
            Zero, Zero, Zero, One, //
            Zero, Zero, One, Zero,
        ]
    );
}

#[test]
fn test_controlled_x_matrix_agrees_with_index_map() {
    let matrix = gate_matrix(&QuantumOperation::CX).unwrap();
    for row in 0..4usize {
        for column in 0..4usize {
            let image = controlled_x_index(2, 1, 0, column).unwrap();
            let expected = if row == image { One } else { Zero };
            assert_eq!(matrix.entries[4 * row + column], expected);
        }
    }
}

#[test]
fn test_tags_without_matrix_are_rejected() {
    assert_eq!(gate_matrix(&QuantumOperation::Measure).err(), Some(SimError::UnknownGateKind));
    assert_eq!(
        gate_matrix(&QuantumOperation::Custom("barrier".to_string())).err(),
        Some(SimError::UnknownGateKind)
    );
    assert_eq!(
        gate_matrix(&QuantumOperation::Custom(String::new())).err(),
        Some(SimError::UnknownGateKind)
    );
}

#[test]
fn test_single_qubit_gate_matrix_and_tag_agree() {
    let gates = [
        SingleQubitGate::Identity,
        SingleQubitGate::Hadamard,
        SingleQubitGate::PauliX,
        SingleQubitGate::PauliY,
        SingleQubitGate::PauliZ,
        SingleQubitGate::PhaseT,
    ];
    let mnemonics = ["id", "h", "x", "y", "z", "t"];
    for (gate, mnemonic) in gates.iter().zip(mnemonics) {
        let op = gate.operation();
        assert_eq!(op.to_qasm(), mnemonic);
        let direct = gate.matrix();
        let by_tag = gate_matrix(&op).unwrap();
        assert_eq!(direct.size, 2);
        assert_eq!(direct.entries, by_tag.entries);
    }
}

#[test]
fn test_classify_names_the_single_qubit_gates() {
    assert_eq!(classify(&QuantumOperation::I), Some(SingleQubitGate::Identity));
    assert_eq!(classify(&QuantumOperation::H), Some(SingleQubitGate::Hadamard));
    assert_eq!(classify(&QuantumOperation::X), Some(SingleQubitGate::PauliX));
    assert_eq!(classify(&QuantumOperation::Y), Some(SingleQubitGate::PauliY));
    assert_eq!(classify(&QuantumOperation::Z), Some(SingleQubitGate::PauliZ));
    assert_eq!(classify(&QuantumOperation::T), Some(SingleQubitGate::PhaseT));
    assert_eq!(classify(&QuantumOperation::CX), None);
    assert_eq!(classify(&QuantumOperation::Measure), None);
    assert_eq!(classify(&QuantumOperation::Custom("h".to_string())), None);
}
