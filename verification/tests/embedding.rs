use morph::error::SimError;
use morph::quantum_simulation::embedding::{
    controlled_x_index, dimension_of, partner_index, qubit_value, MAX_QUBITS,
};

#[test]
fn test_dimension_is_power_of_two() {
    assert_eq!(dimension_of(1), Ok(2));
    assert_eq!(dimension_of(2), Ok(4));
    assert_eq!(dimension_of(3), Ok(8));
    assert_eq!(dimension_of(10), Ok(1024));
    assert_eq!(dimension_of(24), Ok(16_777_216));
}

#[test]
fn test_dimension_rejects_zero_and_oversized_registers() {
    assert_eq!(MAX_QUBITS, 24);
    assert_eq!(dimension_of(0), Err(SimError::InvalidQubitCount));
    assert_eq!(dimension_of(25), Err(SimError::InvalidQubitCount));
    assert_eq!(dimension_of(64), Err(SimError::InvalidQubitCount));
    assert_eq!(dimension_of(usize::MAX), Err(SimError::InvalidQubitCount));
}

#[test]
fn test_qubit_value_reads_the_addressed_bit() {
    // index 5 = 0b101
    assert_eq!(qubit_value(3, 0, 5), Ok(true));
    assert_eq!(qubit_value(3, 1, 5), Ok(false));
    assert_eq!(qubit_value(3, 2, 5), Ok(true));
    assert_eq!(qubit_value(3, 3, 5), Err(SimError::IndexOutOfRange));
    assert_eq!(qubit_value(3, 0, 8), Err(SimError::IndexOutOfRange));
    assert_eq!(qubit_value(0, 0, 0), Err(SimError::InvalidQubitCount));
    assert_eq!(qubit_value(25, 0, 0), Err(SimError::InvalidQubitCount));
}

#[test]
fn test_partner_index_exact_values() {
    assert_eq!(partner_index(3, 0, 0), Ok(1));
    assert_eq!(partner_index(3, 1, 0), Ok(2));
    assert_eq!(partner_index(3, 2, 0), Ok(4));
    assert_eq!(partner_index(3, 1, 7), Ok(5));
    assert_eq!(partner_index(3, 2, 6), Ok(2));
    assert_eq!(partner_index(24, 23, 0), Ok(8_388_608));
}

#[test]
fn test_partner_index_errors() {
    assert_eq!(partner_index(0, 0, 0), Err(SimError::InvalidQubitCount));
    assert_eq!(partner_index(30, 0, 0), Err(SimError::InvalidQubitCount));
    assert_eq!(partner_index(2, 2, 0), Err(SimError::IndexOutOfRange));
    assert_eq!(partner_index(2, 5, 0), Err(SimError::IndexOutOfRange));
    assert_eq!(partner_index(2, 0, 4), Err(SimError::IndexOutOfRange));
}

#[test]
fn test_partner_differs_in_target_bit_only_and_pairs_up() {
    for qubits in 1..=6usize {
        let dim = dimension_of(qubits).unwrap();
        for target in 0..qubits {
            for index in 0..dim {
                let partner = partner_index(qubits, target, index).unwrap();
                assert!(partner < dim);
                assert_ne!(partner, index);
                assert_eq!(partner_index(qubits, target, partner), Ok(index));
                for q in 0..qubits {
                    let here = qubit_value(qubits, q, index).unwrap();
                    let there = qubit_value(qubits, q, partner).unwrap();
                    if q == target {
                        assert_ne!(here, there);
                    } else {
                        assert_eq!(here, there);
                    }
                }
            }
        }
    }
}

#[test]
fn test_controlled_x_index_exact_values() {
    // two qubits, control 0, target 1: |01> -> |11>, |11> -> |01>
    assert_eq!(controlled_x_index(2, 0, 1, 0), Ok(0));
    assert_eq!(controlled_x_index(2, 0, 1, 1), Ok(3));
    assert_eq!(controlled_x_index(2, 0, 1, 2), Ok(2));
    assert_eq!(controlled_x_index(2, 0, 1, 3), Ok(1));
    // control 1, target 0: |10> -> |11>, |11> -> |10>
    assert_eq!(controlled_x_index(2, 1, 0, 0), Ok(0));
    assert_eq!(controlled_x_index(2, 1, 0, 1), Ok(1));
    assert_eq!(controlled_x_index(2, 1, 0, 2), Ok(3));
    assert_eq!(controlled_x_index(2, 1, 0, 3), Ok(2));
}

#[test]
fn test_controlled_x_index_errors() {
    assert_eq!(controlled_x_index(0, 0, 1, 0), Err(SimError::InvalidQubitCount));
    assert_eq!(controlled_x_index(25, 0, 1, 0), Err(SimError::InvalidQubitCount));
    assert_eq!(controlled_x_index(2, 2, 1, 0), Err(SimError::IndexOutOfRange));
    assert_eq!(controlled_x_index(2, 0, 2, 0), Err(SimError::IndexOutOfRange));
    assert_eq!(controlled_x_index(2, 0, 5, 0), Err(SimError::IndexOutOfRange));
    assert_eq!(controlled_x_index(2, 1, 1, 0), Err(SimError::IndexOutOfRange));
    assert_eq!(controlled_x_index(2, 0, 1, 4), Err(SimError::IndexOutOfRange));
}

#[test]
fn test_controlled_x_flips_target_exactly_when_control_is_set() {
    for qubits in 2..=6usize {
        let dim = dimension_of(qubits).unwrap();
        for control in 0..qubits {
            for target in 0..qubits {
                if control == target {
                    continue;
                }
                for index in 0..dim {
                    let image = controlled_x_index(qubits, control, target, index).unwrap();
                    let control_set = qubit_value(qubits, control, index).unwrap();
                    if control_set {
                        assert_ne!(
                            qubit_value(qubits, target, image).unwrap(),
                            qubit_value(qubits, target, index).unwrap()
                        );
                    } else {
                        assert_eq!(image, index);
                    }
                    for q in 0..qubits {
                        if q != target {
                            assert_eq!(
                                qubit_value(qubits, q, image).unwrap(),
                                qubit_value(qubits, q, index).unwrap()
                            );
                        }
                    }
                    assert_eq!(controlled_x_index(qubits, control, target, image), Ok(index));
                }
            }
        }
    }
}
