//! Gate tags and their textual form, and the coarse lifecycle of a quantum
//! state.

pub mod qasm;
pub mod state;
