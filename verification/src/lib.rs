//! State-vector simulation of small quantum circuits.
//!
//! The crate decides everything about a run that is discrete: which gates a
//! circuit may hold, which basis states a gate couples, where amplitudes
//! move, which outcome a measurement draw selects, and how a circuit is
//! written out as text. Amplitudes themselves are values of a type the caller
//! chooses; the arithmetic on them is handed in as closures.
//!
//! Real quantities that the crate has to compare (probabilities, random
//! draws, thresholds) are carried as `u64` *levels*: codes whose unsigned
//! order is the order of the reals they stand for, with level 0 standing for
//! zero. The bit pattern of a non-negative IEEE-754 double is such a code.

pub mod bidirectional_compiler;
pub mod consciousness_metrics;
pub mod distributed;
pub mod error;
pub mod hardware;
pub mod hippocampus;
pub mod quantum;
pub mod quantum_classical;
pub mod quantum_simulation;
pub mod random;
pub mod tensor;
