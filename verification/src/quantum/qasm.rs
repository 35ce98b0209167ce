//! Gate tags and the export of a circuit as assembly text.

use vstd::prelude::*;
use crate::error::SimError;
use crate::quantum_simulation::circuit::GateInstruction;

verus! {

/// The tag of a gate instruction.
#[derive(Debug, Clone)]
pub enum QuantumOperation {
    /// Identity.
    I,
    /// Hadamard.
    H,
    /// Pauli-X.
    X,
    /// Pauli-Y.
    Y,
    /// Pauli-Z.
    Z,
    /// Controlled-X.
    CX,
    /// The T phase gate.
    T,
    /// Measurement of the register.
    Measure,
    /// An operation the simulator does not know. Its text is carried through
    /// to the export and never executed.
    Custom(String),
}

impl QuantumOperation {
    /// The assembly mnemonic of the tag; for a custom operation, its text.
    pub open spec fn mnemonic(&self) -> Seq<char> {
        match self {
            QuantumOperation::I => "id"@,
            QuantumOperation::H => "h"@,
            QuantumOperation::X => "x"@,
            QuantumOperation::Y => "y"@,
            QuantumOperation::Z => "z"@,
            QuantumOperation::CX => "cx"@,
            QuantumOperation::T => "t"@,
            QuantumOperation::Measure => "measure"@,
            QuantumOperation::Custom(text) => text@,
        }
    }

    /// The assembly mnemonic of the tag; for a custom operation, its text.
    pub fn to_qasm(&self) -> (text: String)
        ensures
            text@ == self.mnemonic(),
    {
        match self {
            QuantumOperation::I => String::from_str("id"),
            QuantumOperation::H => String::from_str("h"),
            QuantumOperation::X => String::from_str("x"),
            QuantumOperation::Y => String::from_str("y"),
            QuantumOperation::Z => String::from_str("z"),
            QuantumOperation::CX => String::from_str("cx"),
            QuantumOperation::T => String::from_str("t"),
            QuantumOperation::Measure => String::from_str("measure"),
            QuantumOperation::Custom(op) => op.clone(),
        }
    }
}

/// The instruction that the operation found at position `position` of a
/// bare list of operations stands for: it acts on the qubit of that number,
/// and a controlled-X is controlled by that qubit and targets the next one.
pub open spec fn positional_instruction(op: QuantumOperation, position: usize) -> GateInstruction {
    if op is CX {
        GateInstruction { gate: op, target: (position + 1) as usize, control: Some(position) }
    } else {
        GateInstruction { gate: op, target: position, control: None }
    }
}

fn copy_of(op: &QuantumOperation) -> (copy: QuantumOperation)
    ensures
        copy == *op,
{
    match op {
        QuantumOperation::I => QuantumOperation::I,
        QuantumOperation::H => QuantumOperation::H,
        QuantumOperation::X => QuantumOperation::X,
        QuantumOperation::Y => QuantumOperation::Y,
        QuantumOperation::Z => QuantumOperation::Z,
        QuantumOperation::CX => QuantumOperation::CX,
        QuantumOperation::T => QuantumOperation::T,
        QuantumOperation::Measure => QuantumOperation::Measure,
        QuantumOperation::Custom(text) => QuantumOperation::Custom(text.clone()),
    }
}

/// Reads a bare list of operations as a circuit, each operation addressed
/// by its position in the list.
pub fn positional_circuit(operations: &Vec<QuantumOperation>) -> (circuit: Vec<GateInstruction>)
    ensures
        circuit@.len() == operations@.len(),
        forall|i: int|
            0 <= i < circuit@.len() ==> #[trigger] circuit@[i] == positional_instruction(
                operations@[i],
                i as usize,
            ),
{
    let mut circuit: Vec<GateInstruction> = Vec::new();
    let mut i: usize = 0;
    while i < operations.len()
        invariant
            i <= operations@.len(),
            circuit@.len() == i,
            forall|j: int|
                0 <= j < i ==> #[trigger] circuit@[j] == positional_instruction(
                    operations@[j],
                    j as usize,
                ),
        decreases operations@.len() - i,
    {
        let gate = copy_of(&operations[i]);
        let instruction = match gate {
            QuantumOperation::CX => GateInstruction { gate, target: i + 1, control: Some(i) },
            _ => GateInstruction { gate, target: i, control: None },
        };
        circuit.push(instruction);
        i += 1;
    }
    circuit
}

/// The decimal digit for a value below ten.
pub open spec fn digit(d: nat) -> char {
    if d == 0 {
        '0'
    } else if d == 1 {
        '1'
    } else if d == 2 {
        '2'
    } else if d == 3 {
        '3'
    } else if d == 4 {
        '4'
    } else if d == 5 {
        '5'
    } else if d == 6 {
        '6'
    } else if d == 7 {
        '7'
    } else if d == 8 {
        '8'
    } else {
        '9'
    }
}

/// The decimal numeral of `n`, most significant digit first, without
/// leading zeros.
pub open spec fn decimal(n: nat) -> Seq<char>
    decreases n,
{
    if n < 10 {
        seq![digit(n)]
    } else {
        decimal(n / 10).push(digit(n % 10))
    }
}

/// The text that names qubit `q` of the quantum register.
pub open spec fn qubit_reference(q: usize) -> Seq<char> {
    "q["@ + decimal(q as nat) + "]"@
}

/// The text that names slot `q` of the classical register.
pub open spec fn classical_reference(q: usize) -> Seq<char> {
    "c["@ + decimal(q as nat) + "]"@
}

/// An instruction that can be written out: a controlled-X has to name a
/// control distinct from its target.
pub open spec fn exportable(instruction: GateInstruction) -> bool {
    instruction.gate is CX ==> instruction.control is Some && instruction.control->0
        != instruction.target
}

/// The statement for one instruction, with its line end.
///
/// A single-qubit gate is written as its mnemonic and its qubit, a controlled-X names
/// control and target, a measurement maps the qubit to the classical slot of
/// the same number, and a custom operation is its own text.
pub open spec fn statement(instruction: GateInstruction) -> Seq<char> {
    match instruction.gate {
        QuantumOperation::Custom(text) => text@ + ";\n"@,
        QuantumOperation::CX => "cx "@ + qubit_reference(instruction.control->0) + ", "@
            + qubit_reference(instruction.target) + ";\n"@,
        QuantumOperation::Measure => "measure "@ + qubit_reference(instruction.target) + " -> "@
            + classical_reference(instruction.target) + ";\n"@,
        _ => instruction.gate.mnemonic() + " "@ + qubit_reference(instruction.target) + ";\n"@,
    }
}

/// The two lines that open every exported program, and the empty line after
/// them.
pub open spec fn header() -> Seq<char> {
    "OPENQASM 3.0;\ninclude \"stdgates.inc\";\n\n"@
}

/// The statements of a circuit, one after the other in circuit order.
pub open spec fn statements(circuit: Seq<GateInstruction>) -> Seq<char>
    decreases circuit.len(),
{
    if circuit.len() == 0 {
        Seq::empty()
    } else {
        statements(circuit.drop_last()) + statement(circuit.last())
    }
}

fn digit_text(d: usize) -> (text: &'static str)
    requires
        d < 10,
    ensures
        text@ == seq![digit(d as nat)],
{
    proof {
        reveal_strlit("0");
        reveal_strlit("1");
        reveal_strlit("2");
        reveal_strlit("3");
        reveal_strlit("4");
        reveal_strlit("5");
        reveal_strlit("6");
        reveal_strlit("7");
        reveal_strlit("8");
        reveal_strlit("9");
    }
    let text = if d == 0 {
        "0"
    } else if d == 1 {
        "1"
    } else if d == 2 {
        "2"
    } else if d == 3 {
        "3"
    } else if d == 4 {
        "4"
    } else if d == 5 {
        "5"
    } else if d == 6 {
        "6"
    } else if d == 7 {
        "7"
    } else if d == 8 {
        "8"
    } else {
        "9"
    };
    assert(text@ =~= seq![digit(d as nat)]);
    text
}

fn append_decimal(out: &mut String, n: usize)
    ensures
        final(out)@ == old(out)@ + decimal(n as nat),
    decreases n,
{
    if n >= 10 {
        append_decimal(out, n / 10);
    }
    out.append(digit_text(n % 10));
    assert(out@ =~= old(out)@ + decimal(n as nat));
}

fn append_qubit(out: &mut String, q: usize)
    ensures
        final(out)@ == old(out)@ + qubit_reference(q),
{
    out.append("q[");
    append_decimal(out, q);
    out.append("]");
    assert(out@ =~= old(out)@ + qubit_reference(q));
}

/// The decimal numeral of `n`.
pub fn decimal_text(n: usize) -> (text: String)
    ensures
        text@ == decimal(n as nat),
{
    let mut text = String::new();
    append_decimal(&mut text, n);
    assert(text@ =~= decimal(n as nat));
    text
}

fn append_statement(out: &mut String, instruction: &GateInstruction) -> (res: Result<(), SimError>)
    ensures
        res is Ok <==> exportable(*instruction),
        res is Err ==> res == Err::<(), SimError>(SimError::IndexOutOfRange) && final(out)@ == old(
            out,
        )@,
        res is Ok ==> final(out)@ == old(out)@ + statement(*instruction),
{
    match &instruction.gate {
        QuantumOperation::Custom(text) => {
            out.append(text.as_str());
            out.append(";\n");
        },
        QuantumOperation::CX => {
            match instruction.control {
                Some(control) => {
                    if control == instruction.target {
                        return Err(SimError::IndexOutOfRange);
                    }
                    out.append("cx ");
                    append_qubit(out, control);
                    out.append(", ");
                    append_qubit(out, instruction.target);
                    out.append(";\n");
                },
                None => {
                    return Err(SimError::IndexOutOfRange);
                },
            }
        },
        QuantumOperation::Measure => {
            out.append("measure ");
            append_qubit(out, instruction.target);
            out.append(" -> ");
            out.append("c[");
            append_decimal(out, instruction.target);
            out.append("]");
            out.append(";\n");
        },
        _ => {
            let name = instruction.gate.to_qasm();
            out.append(name.as_str());
            out.append(" ");
            append_qubit(out, instruction.target);
            out.append(";\n");
        },
    }
    assert(out@ =~= old(out)@ + statement(*instruction));
    Ok(())
}

/// The statement for one instruction, with its line end.
///
/// A controlled-X without a control, or with its target as control, cannot
/// be written and is refused with `IndexOutOfRange`.
pub fn qasm_statement(instruction: &GateInstruction) -> (res: Result<String, SimError>)
    ensures
        res is Ok <==> exportable(*instruction),
        res is Err ==> res == Err::<String, SimError>(SimError::IndexOutOfRange),
        res matches Ok(text) ==> text@ == statement(*instruction),
{
    let mut text = String::new();
    match append_statement(&mut text, instruction) {
        Ok(()) => {
            assert(text@ =~= statement(*instruction));
            Ok(text)
        },
        Err(e) => Err(e),
    }
}

/// Writes a circuit out as an assembly program: the header, then one
/// statement per instruction in circuit order.
///
/// The export is refused with `IndexOutOfRange` exactly when some
/// instruction cannot be written.
pub fn generate_qasm(circuit: &Vec<GateInstruction>) -> (res: Result<String, SimError>)
    ensures
        res is Ok <==> forall|i: int|
            0 <= i < circuit@.len() ==> exportable(#[trigger] circuit@[i]),
        res is Err ==> res == Err::<String, SimError>(SimError::IndexOutOfRange),
        res matches Ok(text) ==> text@ == header() + statements(circuit@),
{
    let mut text = String::from_str("OPENQASM 3.0;\ninclude \"stdgates.inc\";\n\n");
    let mut i: usize = 0;
    assert(statements(circuit@.subrange(0, 0)) =~= Seq::<char>::empty());
    while i < circuit.len()
        invariant
            i <= circuit@.len(),
            forall|j: int| 0 <= j < i ==> exportable(#[trigger] circuit@[j]),
            text@ == header() + statements(circuit@.subrange(0, i as int)),
        decreases circuit@.len() - i,
    {
        match append_statement(&mut text, &circuit[i]) {
            Ok(()) => {},
            Err(e) => {
                return Err(e);
            },
        }
        proof {
            let done = circuit@.subrange(0, i + 1);
            assert(done.drop_last() =~= circuit@.subrange(0, i as int));
            assert(done.last() == circuit@[i as int]);
            assert(text@ =~= header() + statements(done));
        }
        i += 1;
    }
    assert(circuit@.subrange(0, i as int) =~= circuit@);
    Ok(text)
}

} // verus!
