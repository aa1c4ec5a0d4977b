//! Wa-Tor predator-prey simulation on a toroidal grid.
//!
//! Fish and sharks move, feed, reproduce and starve, one synchronous
//! generation at a time, with randomized tie-breaking among equally
//! eligible moves. The engine advances in place: a per-organism
//! generation stamp prevents an organism moved earlier in a scan from
//! being processed again at its new coordinate.

use vstd::prelude::*;

pub mod board;
pub mod laws;
pub mod model;
pub mod sampler;

pub use board::Board;
pub use sampler::Sampler;

verus! {

/// The contents of one grid cell.
#[derive(Clone, Copy, Debug, PartialEq, Eq, Structural)]
pub enum Cell {
    /// A shark: remaining energy, ticks since last spawn, generation stamp.
    Shark(usize, usize, usize),
    /// A fish: ticks since last spawn, generation stamp.
    Fish(usize, usize),
    /// No organism.
    Empty,
}

/// The one failure the engine knows: construction parameters under which
/// the simulation rules are undefined.
#[derive(Clone, Copy, Debug, PartialEq, Eq, Structural)]
pub enum WatorError {
    /// A reproduction period of zero (the reproduction modulus would be
    /// undefined), a zero grid dimension, a dimension over `MAX_DIM`, or
    /// zero initial shark energy (every shark would be stillborn).
    InvalidConfiguration,
}

} // verus!
