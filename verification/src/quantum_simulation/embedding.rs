//! Basis-index arithmetic: where a gate on one or two qubits acts inside the
//! full register.
//!
//! A basis state of an `n`-qubit register is an index below `2^n`; qubit `q`
//! is bit `q` of that index. A single-qubit gate couples exactly the two
//! indices that differ in its target bit. A controlled-X sends an index to
//! itself when the control bit is 0 and to the index with the target bit
//! flipped when the control bit is 1.

use vstd::prelude::*;
use vstd::arithmetic::power2::{lemma2_to64, pow2};
use crate::error::SimError;

verus! {

/// Largest register the simulator admits. The state grows as `2^n`, so the
/// bound is part of the interface: larger requests are refused, never
/// truncated.
pub const MAX_QUBITS: usize = 24;

/// A register size the simulator admits.
pub open spec fn admissible(qubits: usize) -> bool {
    1 <= qubits <= MAX_QUBITS
}

/// Number of basis states of a register of `qubits` qubits.
pub open spec fn dimension(qubits: usize) -> usize {
    1usize << qubits
}

/// The index whose only set bit is bit `q`.
pub open spec fn bit_mask(q: usize) -> usize {
    1usize << q
}

/// Whether qubit `q` is 1 in basis state `index`.
pub open spec fn bit_at(index: usize, q: usize) -> bool {
    index & bit_mask(q) != 0
}

/// The basis state that differs from `index` in qubit `q` and nowhere else.
pub open spec fn flip_bit(index: usize, q: usize) -> usize {
    index ^ bit_mask(q)
}

/// Where controlled-X sends basis state `index`.
pub open spec fn controlled_x_image(index: usize, control: usize, target: usize) -> usize {
    if bit_at(index, control) {
        flip_bit(index, target)
    } else {
        index
    }
}

/// The dimension of an admissible register is `2^qubits`: at least 2 and at
/// most `2^24`.
pub proof fn lemma_dimension(qubits: usize)
    requires
        admissible(qubits),
    ensures
        dimension(qubits) == pow2(qubits as nat),
        2 <= dimension(qubits) <= 0x100_0000,
{
    assert(2 <= dimension(qubits) <= 0x100_0000) by (bit_vector)
        requires
            1 <= qubits <= 24,
    ;
    assert(dimension(qubits) == pow2(qubits as nat)) by {
        lemma2_to64();
        if qubits < 24 {
            vstd::arithmetic::power2::lemma_pow2_strictly_increases(qubits as nat, 24);
        }
        vstd::bits::lemma_usize_shl_is_mul(1usize, qubits);
    }
}

/// Flipping a qubit changes that qubit, stays inside the register, undoes
/// itself, and moves the index by exactly the qubit's mask.
pub proof fn lemma_flip_bit(qubits: usize, q: usize, index: usize)
    by (bit_vector)
    requires
        admissible(qubits),
        q < qubits,
        index < dimension(qubits),
    ensures
        flip_bit(index, q) < dimension(qubits),
        bit_at(flip_bit(index, q), q) == !bit_at(index, q),
        flip_bit(flip_bit(index, q), q) == index,
        !bit_at(index, q) ==> flip_bit(index, q) == index + bit_mask(q),
        bit_at(index, q) ==> flip_bit(index, q) == index - bit_mask(q),
{
}

/// Flipping one qubit leaves every other qubit as it was.
pub proof fn lemma_flip_bit_keeps_others(q: usize, p: usize, index: usize)
    by (bit_vector)
    requires
        q < MAX_QUBITS,
        p < MAX_QUBITS,
        p != q,
    ensures
        bit_at(flip_bit(index, q), p) == bit_at(index, p),
{
}

/// Controlled-X on basis states.
///
/// With the control qubit 0 the state is left alone. With the control qubit
/// 1 the target qubit is flipped. In both cases the control and every qubit
/// other than the target keep their value, the image is a basis state of the
/// same register, and a second application restores the state.
pub proof fn lemma_controlled_x(qubits: usize, control: usize, target: usize, index: usize)
    requires
        admissible(qubits),
        control < qubits,
        target < qubits,
        control != target,
        index < dimension(qubits),
    ensures
        controlled_x_image(index, control, target) < dimension(qubits),
        !bit_at(index, control) ==> controlled_x_image(index, control, target) == index,
        bit_at(index, control) ==> bit_at(controlled_x_image(index, control, target), target)
            == !bit_at(index, target),
        forall|q: usize|
            q < qubits && q != target ==> bit_at(
                controlled_x_image(index, control, target),
                q,
            ) == #[trigger] bit_at(index, q),
        controlled_x_image(controlled_x_image(index, control, target), control, target)
            == index,
{
    let image = controlled_x_image(index, control, target);
    lemma_flip_bit(qubits, target, index);
    assert forall|q: usize| q < qubits && q != target implies bit_at(image, q) == #[trigger] bit_at(
        index,
        q,
    ) by {
        lemma_flip_bit_keeps_others(target, q, index);
    }
    assert(bit_at(image, control) == bit_at(index, control));
}

/// Checks that `qubits` is a size the simulator admits and returns the
/// number of basis states.
pub fn dimension_of(qubits: usize) -> (res: Result<usize, SimError>)
    ensures
        res is Ok <==> admissible(qubits),
        res is Err ==> res == Err::<usize, SimError>(SimError::InvalidQubitCount),
        res matches Ok(dim) ==> {
            &&& dim == dimension(qubits)
            &&& dim == pow2(qubits as nat)
            &&& 2 <= dim <= 0x100_0000
        },
{
    if qubits == 0 || qubits > MAX_QUBITS {
        return Err(SimError::InvalidQubitCount);
    }
    proof {
        lemma_dimension(qubits);
    }
    Ok(1usize << qubits)
}

/// Which error, if any, a request on qubit `qubit` and basis state `index`
/// of a `qubits`-qubit register meets.
pub open spec fn address_error(qubits: usize, qubit: usize, index: usize) -> Option<SimError> {
    if !admissible(qubits) {
        Some(SimError::InvalidQubitCount)
    } else if qubit >= qubits || index >= dimension(qubits) {
        Some(SimError::IndexOutOfRange)
    } else {
        None
    }
}

fn check_address(qubits: usize, qubit: usize, index: usize) -> (res: Result<(), SimError>)
    ensures
        res == match address_error(qubits, qubit, index) {
            Some(e) => Err::<(), SimError>(e),
            None => Ok(()),
        },
{
    let dim = dimension_of(qubits)?;
    if qubit >= qubits || index >= dim {
        return Err(SimError::IndexOutOfRange);
    }
    Ok(())
}

/// The value of qubit `qubit` in basis state `index`.
pub fn qubit_value(qubits: usize, qubit: usize, index: usize) -> (res: Result<bool, SimError>)
    ensures
        res == match address_error(qubits, qubit, index) {
            Some(e) => Err::<bool, SimError>(e),
            None => Ok(bit_at(index, qubit)),
        },
{
    check_address(qubits, qubit, index)?;
    Ok(index & (1usize << qubit) != 0)
}

/// The basis state that a single-qubit gate on `target` couples with
/// `index`: the one that differs from it in the target qubit only.
pub fn partner_index(qubits: usize, target: usize, index: usize) -> (res: Result<
    usize,
    SimError,
>)
    ensures
        res == match address_error(qubits, target, index) {
            Some(e) => Err::<usize, SimError>(e),
            None => Ok(flip_bit(index, target)),
        },
        res matches Ok(partner) ==> partner < dimension(qubits),
{
    check_address(qubits, target, index)?;
    proof {
        lemma_flip_bit(qubits, target, index);
    }
    Ok(index ^ (1usize << target))
}

/// The basis state to which controlled-X sends `index`.
///
/// The request is refused with `IndexOutOfRange` when either qubit or the
/// index lies outside the register, or when control and target coincide.
pub fn controlled_x_index(qubits: usize, control: usize, target: usize, index: usize) -> (res:
    Result<usize, SimError>)
    ensures
        res == if !admissible(qubits) {
            Err::<usize, SimError>(SimError::InvalidQubitCount)
        } else if control >= qubits || target >= qubits || control == target || index
            >= dimension(qubits) {
            Err::<usize, SimError>(SimError::IndexOutOfRange)
        } else {
            Ok(controlled_x_image(index, control, target))
        },
        res matches Ok(image) ==> image < dimension(qubits),
{
    check_address(qubits, control, index)?;
    if target >= qubits || control == target {
        return Err(SimError::IndexOutOfRange);
    }
    proof {
        lemma_controlled_x(qubits, control, target, index);
    }
    if index & (1usize << control) != 0 {
        Ok(index ^ (1usize << target))
    } else {
        Ok(index)
    }
}

} // verus!
