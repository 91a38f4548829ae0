//! Particle swarm optimisation: the bookkeeping core of the optimiser.
//!
//! Real numbers are carried as IEEE 754 binary64 bit patterns in `u64`
//! values; the [`scalar`] module says how such patterns are ordered.

pub mod fitness;
pub mod laws;
pub mod pso;
pub mod scalar;
