//! Monte Carlo estimate of the runs that a lineup of identical hitters scores.
//!
//! Rates are fixed-point integers: `RATE_SCALE` stands for a probability of one,
//! so a .300 hitter has an average of `300`.
use vstd::prelude::*;

pub mod bases;
pub mod grid;
pub mod inning;
pub mod outcome;
pub mod profile;
pub mod random;

verus! {

} // verus!
