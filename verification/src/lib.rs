//! Monte Carlo estimation of a definite integral over a user-supplied
//! interval, with a fixed-point numeric model: a scalar is an `i64` holding
//! millionths of a unit.

pub mod fixed;
pub mod bounds;
pub mod estimator;
pub mod math;
pub mod rng;
pub mod sweep;
pub mod trig;

use vstd::prelude::*;

verus! {

/// Millionths of a unit: the resolution of the fixed-point scalars.
pub const SCALE: i64 = 1_000_000;

} // verus!
