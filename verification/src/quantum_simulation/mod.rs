//! The circuit simulator: index embedding, gate matrices, the amplitude
//! buffer, noise decisions, measurement, and circuit validation.

pub mod circuit;
pub mod cluster;
pub mod embedding;
pub mod gates;
pub mod laws;
pub mod measurement;
pub mod noise;
pub mod simulator;
pub mod state_vector;

pub use cluster::DistributedSimulator;
