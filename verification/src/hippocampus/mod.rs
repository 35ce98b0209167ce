//! Memory bookkeeping.

pub mod memory;
