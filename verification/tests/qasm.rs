use morph::bidirectional_compiler::TopDownCompiler;
use morph::error::SimError;
use morph::quantum::qasm::{
    decimal_text, generate_qasm, positional_circuit, qasm_statement, QuantumOperation,
};
use morph::quantum_simulation::circuit::GateInstruction;

const HEADER: &str = "OPENQASM 3.0;\ninclude \"stdgates.inc\";\n\n";

#[test]
fn test_to_qasm_mnemonics() {
    assert_eq!(QuantumOperation::I.to_qasm(), "id");
    assert_eq!(QuantumOperation::H.to_qasm(), "h");
    assert_eq!(QuantumOperation::X.to_qasm(), "x");
    assert_eq!(QuantumOperation::Y.to_qasm(), "y");
    assert_eq!(QuantumOperation::Z.to_qasm(), "z");
    assert_eq!(QuantumOperation::CX.to_qasm(), "cx");
    assert_eq!(QuantumOperation::T.to_qasm(), "t");
    assert_eq!(QuantumOperation::Measure.to_qasm(), "measure");
    assert_eq!(QuantumOperation::Custom("rz(0.5) q[2]".to_string()).to_qasm(), "rz(0.5) q[2]");
    assert_eq!(QuantumOperation::Custom(String::new()).to_qasm(), "");
}

#[test]
fn test_decimal_text() {
    assert_eq!(decimal_text(0), "0");
    assert_eq!(decimal_text(7), "7");
    assert_eq!(decimal_text(9), "9");
    assert_eq!(decimal_text(10), "10");
    assert_eq!(decimal_text(23), "23");
    assert_eq!(decimal_text(100), "100");
    assert_eq!(decimal_text(1_234_567_890), "1234567890");
    assert_eq!(decimal_text(usize::MAX), usize::MAX.to_string());
}

#[test]
fn test_statements() {
    let h = GateInstruction::new(QuantumOperation::H, 0);
    assert_eq!(qasm_statement(&h).unwrap(), "h q[0];\n");
    let t = GateInstruction::new(QuantumOperation::T, 12);
    assert_eq!(qasm_statement(&t).unwrap(), "t q[12];\n");
    let id = GateInstruction::new(QuantumOperation::I, 3);
    assert_eq!(qasm_statement(&id).unwrap(), "id q[3];\n");
    let cx = GateInstruction::controlled(QuantumOperation::CX, 0, 1);
    assert_eq!(qasm_statement(&cx).unwrap(), "cx q[0], q[1];\n");
    let cx = GateInstruction::controlled(QuantumOperation::CX, 10, 2);
    assert_eq!(qasm_statement(&cx).unwrap(), "cx q[10], q[2];\n");
    let m = GateInstruction::new(QuantumOperation::Measure, 4);
    assert_eq!(qasm_statement(&m).unwrap(), "measure q[4] -> c[4];\n");
    let custom = GateInstruction::new(QuantumOperation::Custom("barrier q".to_string()), 0);
    assert_eq!(qasm_statement(&custom).unwrap(), "barrier q;\n");
}

#[test]
fn test_statement_refuses_unwritable_controlled_x() {
    let no_control = GateInstruction::new(QuantumOperation::CX, 1);
    assert_eq!(qasm_statement(&no_control), Err(SimError::IndexOutOfRange));
    let same = GateInstruction::controlled(QuantumOperation::CX, 1, 1);
    assert_eq!(qasm_statement(&same), Err(SimError::IndexOutOfRange));
}

#[test]
fn test_generate_qasm_program() {
    let circuit = vec![
        GateInstruction::new(QuantumOperation::H, 0),
        GateInstruction::controlled(QuantumOperation::CX, 0, 1),
        GateInstruction::new(QuantumOperation::Y, 1),
        GateInstruction::new(QuantumOperation::Custom("reset q[1]".to_string()), 1),
        GateInstruction::new(QuantumOperation::Measure, 0),
    ];
    let expected = format!(
        "{HEADER}h q[0];\ncx q[0], q[1];\ny q[1];\nreset q[1];\nmeasure q[0] -> c[0];\n"
    );
    assert_eq!(generate_qasm(&circuit).unwrap(), expected);
}

#[test]
fn test_generate_qasm_of_empty_circuit_is_header() {
    assert_eq!(generate_qasm(&Vec::new()).unwrap(), HEADER);
}

#[test]
fn test_generate_qasm_refuses_unwritable_instruction() {
    let circuit = vec![
        GateInstruction::new(QuantumOperation::H, 0),
        GateInstruction::new(QuantumOperation::CX, 1),
    ];
    assert_eq!(generate_qasm(&circuit), Err(SimError::IndexOutOfRange));
}

#[test]
fn test_positional_circuit() {
    let operations = vec![
        QuantumOperation::H,
        QuantumOperation::CX,
        QuantumOperation::Measure,
        QuantumOperation::Custom("barrier".to_string()),
    ];
    let circuit = positional_circuit(&operations);
    assert_eq!(circuit.len(), 4);
    assert!(matches!(circuit[0].gate, QuantumOperation::H));
    assert_eq!((circuit[0].target, circuit[0].control), (0, None));
    assert!(matches!(circuit[1].gate, QuantumOperation::CX));
    assert_eq!((circuit[1].target, circuit[1].control), (2, Some(1)));
    assert!(matches!(circuit[2].gate, QuantumOperation::Measure));
    assert_eq!((circuit[2].target, circuit[2].control), (2, None));
    assert!(matches!(&circuit[3].gate, QuantumOperation::Custom(text) if text == "barrier"));
    assert_eq!((circuit[3].target, circuit[3].control), (3, None));
    let expected =
        format!("{HEADER}h q[0];\ncx q[1], q[2];\nmeasure q[2] -> c[2];\nbarrier;\n");
    assert_eq!(generate_qasm(&circuit).unwrap(), expected);
}

#[test]
fn test_top_down_compiler_collects_in_order() {
    let mut compiler = TopDownCompiler::new();
    assert!(compiler.quantum_operations.is_empty());
    compiler.add_operation(QuantumOperation::H);
    compiler.add_operation(QuantumOperation::CX);
    compiler.add_operation(QuantumOperation::Measure);
    assert_eq!(compiler.quantum_operations.len(), 3);
    assert!(matches!(compiler.quantum_operations[0], QuantumOperation::H));
    assert!(matches!(compiler.quantum_operations[1], QuantumOperation::CX));
    assert!(matches!(compiler.quantum_operations[2], QuantumOperation::Measure));
    let circuit = compiler.circuit();
    assert_eq!(
        generate_qasm(&circuit).unwrap(),
        format!("{HEADER}h q[0];\ncx q[1], q[2];\nmeasure q[2] -> c[2];\n")
    );
}
