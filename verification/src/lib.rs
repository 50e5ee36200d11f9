//! A two-stage inventory replenishment engine under stochastic demand.
//!
//! The engine works in fixed-point arithmetic: a probability or cost value
//! `v` stands for the real number `v / SCALE`. Demand is truncated to the
//! support `0 .. D_MAX - 1`; the thinning table covers trial counts
//! `0 ..= D_MAX`.

use vstd::prelude::*;

pub mod distributions;
pub mod engine;
pub mod evaluate;
pub mod optimise;
pub mod thinning;

verus! {

/// Global truncation width: all modeled demand magnitudes lie below this.
pub const D_MAX: usize = 50;

/// Fixed-point scale: a stored value `v` stands for the real `v / SCALE`.
pub const SCALE: u64 = 1_000_000;

/// `SCALE * SCALE * SCALE`, the denominator that normalizes an accumulated
/// triple product of fixed-point factors back to `SCALE` units.
pub const SCALE_CUBED: u128 = 1_000_000_000_000_000_000;

/// Largest accepted starting inventory.
pub const X_LIMIT: usize = 1_000;

/// Largest accepted order quantity (and order-quantity bound).
pub const Q_LIMIT: usize = 1_000;

/// Largest accepted unit cost, in `SCALE` units (a real cost of 1,000,000).
pub const COST_LIMIT: u64 = 1_000_000_000_000;

/// Every failure the engine can report; each public operation says exactly
/// when each variant is returned.
#[derive(Clone, Copy, Debug, PartialEq, Eq, Structural)]
pub enum EngineError {
    /// A distribution parameter exceeds what the truncation width supports.
    ParameterOutOfRange,
    /// A distribution requiring two parameters received only one.
    MissingParameter,
    /// The distribution code is not one of 'P', 'B', 'N'.
    UnsupportedDistributionType,
    /// A probability lies outside [0, 1] (that is, outside [0, SCALE]).
    InvalidProbability,
}

} // verus!
