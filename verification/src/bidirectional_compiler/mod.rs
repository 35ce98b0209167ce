//! Compilation front ends that assemble circuits.

pub mod top_down;

pub use top_down::TopDownCompiler;
