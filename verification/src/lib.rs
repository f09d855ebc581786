//! Grey Wolf Optimizer: a population-based metaheuristic for continuous
//! black-box minimization over a bounded hyper-rectangle.
//!
//! Coordinates and fitness values are fixed-point numbers: an `i64` counts
//! units of `1 / SCALE`, so `5_120_000` stands for `5.12`. This keeps every
//! arithmetic step of the algorithm exact and verifiable.

pub mod driver;
pub mod engine;
pub mod fitness;
pub mod hierarchy;
pub mod objective;
pub mod rng;

use vstd::prelude::*;

verus! {

/// Fixed-point scale: one `i64` unit stands for `1 / SCALE` of a real unit.
pub const SCALE: i64 = 1_000_000;

/// Largest coordinate magnitude the fixed-point representation admits
/// (one million real units); keeps every intermediate product inside `i64`.
pub const MAX_ABS_COORD: i64 = 1_000_000_000_000;

} // verus!
