//! The fixed-point scale shared by all lengths, positions and velocities.
//!
//! A quantity is an `i64` count of units; [`UNIT`] units make one whole arena
//! unit, so a value `v` stands for the decimal number `v / 10^SCALE`.

use vstd::prelude::*;

verus! {

/// Number of decimal places carried by every quantity.
pub const SCALE: u32 = 4;

/// Units per whole arena unit: ten to the power of [`SCALE`].
pub const UNIT: i64 = 10_000;

/// Largest magnitude, in units, that a quantity may have: one billion whole
/// arena units. Squared distances between quantities of this size still fit a
/// 96-bit decimal mantissa.
pub const COORD_MAX: i64 = 10_000_000_000_000;

/// Whether `v` lies within `-COORD_MAX ..= COORD_MAX`.
pub open spec fn in_range(v: int) -> bool {
    -COORD_MAX <= v <= COORD_MAX
}

/// Tests [`in_range`] at run time.
pub fn is_in_range(v: i64) -> (b: bool)
    ensures
        b == in_range(v as int),
{
    -COORD_MAX <= v && v <= COORD_MAX
}

/// The quotient `n / d` rounded toward zero.
pub open spec fn div_toward_zero(n: int, d: int) -> int
    recommends
        d > 0,
{
    if n >= 0 {
        n / d
    } else {
        -((-n) / d)
    }
}

} // verus!
