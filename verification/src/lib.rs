//! Order-generation engine for a grid + trailing perpetual-futures strategy.
//!
//! All monetary quantities (prices, quantities, balances, costs, ratios and
//! percentages) are fixed-point numbers: an `i64` holding the real value
//! scaled by [`fixed::SCALE`]. Every arithmetic step is exact integer
//! arithmetic with documented truncation and saturation, so each function's
//! contract pins its result down to the last unit.

pub mod fixed;
pub mod types;
pub mod utils;
pub mod solvers;
pub mod entries;
pub mod closes;
pub mod laws;

use vstd::prelude::*;

verus! {

/// The engine is built from pure functions over fixed-point values; this
/// crate-level function gives callers the scale used throughout.
pub fn fixed_point_scale() -> (r: i64)
    ensures
        r == fixed::SCALE,
{
    fixed::SCALE
}

} // verus!
