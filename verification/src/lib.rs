//! A two-dimensional N-body gravity simulator.
//!
//! Point masses attract one another by Newtonian gravitation; the engine
//! builds a net-force table over all pairs of bodies and advances every body
//! with a fixed-step explicit Euler integrator, recording a snapshot of all
//! positions after every step.  All arithmetic is IEEE-754 single precision,
//! carried as raw bit patterns so that every result is pinned bit for bit.

pub mod fp;
pub mod trig;
pub mod physics;
pub mod table;
pub mod system;

pub use fp::Scalar;
