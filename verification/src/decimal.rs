//! Decimal arithmetic, carried out by the `rust_decimal` crate.
//!
//! A [`Scalar`] holds the two integers that make up a `rust_decimal::Decimal`.
//! Each function below rebuilds the decimals from those integers, performs one
//! operation of `rust_decimal` on them and hands the parts of the result back.
//! Their contracts are taken on trust from the crate's source; the bounds in
//! their preconditions keep every operation exact and free of overflow.

use vstd::prelude::*;

verus! {

/// Largest magnitude of a decimal mantissa: `2^96 - 1`.
pub const MANTISSA_MAX: i128 = 79_228_162_514_264_337_593_543_950_335;

/// Largest number of decimal places of a decimal.
pub const SCALE_MAX: u32 = 28;

/// The decimal number `mantissa / 10^scale`.
#[derive(Clone, Copy, Debug)]
pub struct Scalar {
    pub mantissa: i128,
    pub scale: u32,
}

impl Scalar {
    /// Whether the parts fit a decimal: at most 96 bits of mantissa and at
    /// most 28 decimal places.
    pub open spec fn valid(self) -> bool {
        -MANTISSA_MAX <= self.mantissa <= MANTISSA_MAX && self.scale <= SCALE_MAX
    }

    /// Whether the order of the two numbers is the order of their mantissas:
    /// they have the same number of decimal places, or one of them is zero.
    pub open spec fn comparable(self, other: Scalar) -> bool {
        self.scale == other.scale || self.mantissa == 0 || other.mantissa == 0
    }

    /// The number `mantissa / 10^scale`.
    pub fn new(mantissa: i128, scale: u32) -> (s: Scalar)
        ensures
            s.mantissa == mantissa,
            s.scale == scale,
    {
        Scalar { mantissa, scale }
    }
}

/// `Decimal::min` of `rust_decimal`: the second number where the first is
/// greater, else the first, with its parts unchanged.
#[verifier::external_body]
pub(crate) fn decimal_min(a: Scalar, b: Scalar) -> (r: Scalar)
    requires
        a.valid(),
        b.valid(),
        a.comparable(b),
    ensures
        r == (if a.mantissa > b.mantissa { b } else { a }),
{
    let x = rust_decimal::Decimal::from_i128_with_scale(a.mantissa, a.scale);
    let y = rust_decimal::Decimal::from_i128_with_scale(b.mantissa, b.scale);
    let m = x.min(y);
    Scalar { mantissa: m.mantissa(), scale: m.scale() }
}

/// `Decimal::max` of `rust_decimal`: the second number where the first is
/// less, else the first, with its parts unchanged.
#[verifier::external_body]
pub(crate) fn decimal_max(a: Scalar, b: Scalar) -> (r: Scalar)
    requires
        a.valid(),
        b.valid(),
        a.comparable(b),
    ensures
        r == (if a.mantissa < b.mantissa { b } else { a }),
{
    let x = rust_decimal::Decimal::from_i128_with_scale(a.mantissa, a.scale);
    let y = rust_decimal::Decimal::from_i128_with_scale(b.mantissa, b.scale);
    let m = x.max(y);
    Scalar { mantissa: m.mantissa(), scale: m.scale() }
}

/// The `-` operator of `rust_decimal::Decimal`. On two numbers of equal scale
/// whose difference fits the mantissa, the result keeps the scale and its
/// mantissa is the difference of the mantissas.
#[verifier::external_body]
pub(crate) fn decimal_sub(a: Scalar, b: Scalar) -> (r: Scalar)
    requires
        a.valid(),
        b.valid(),
        a.scale == b.scale,
        -MANTISSA_MAX <= a.mantissa - b.mantissa <= MANTISSA_MAX,
    ensures
        r.mantissa == a.mantissa - b.mantissa,
        r.scale == a.scale,
{
    let x = rust_decimal::Decimal::from_i128_with_scale(a.mantissa, a.scale);
    let y = rust_decimal::Decimal::from_i128_with_scale(b.mantissa, b.scale);
    let d = x - y;
    Scalar { mantissa: d.mantissa(), scale: d.scale() }
}

/// The `*` operator of `rust_decimal::Decimal`. Where a factor is zero the
/// result is zero with no decimal places. Otherwise, where the product of the
/// mantissas fits the mantissa and the scales add up to at most 28, the result
/// has that product and that sum as its parts.
#[verifier::external_body]
pub(crate) fn decimal_mul(a: Scalar, b: Scalar) -> (r: Scalar)
    requires
        a.valid(),
        b.valid(),
        a.scale + b.scale <= SCALE_MAX,
        -MANTISSA_MAX <= a.mantissa * b.mantissa <= MANTISSA_MAX,
    ensures
        a.mantissa == 0 || b.mantissa == 0 ==> r.mantissa == 0 && r.scale == 0,
        a.mantissa != 0 && b.mantissa != 0 ==> r.mantissa == a.mantissa * b.mantissa && r.scale
            == a.scale + b.scale,
{
    let x = rust_decimal::Decimal::from_i128_with_scale(a.mantissa, a.scale);
    let y = rust_decimal::Decimal::from_i128_with_scale(b.mantissa, b.scale);
    let p = x * y;
    Scalar { mantissa: p.mantissa(), scale: p.scale() }
}

/// The `+` operator of `rust_decimal::Decimal`. Where the first number is zero
/// the result is the second, and where the second is zero the result is the
/// first, parts unchanged. Otherwise, on two numbers of equal scale whose sum
/// fits the mantissa, the result keeps the scale and its mantissa is the sum of
/// the mantissas.
#[verifier::external_body]
pub(crate) fn decimal_add(a: Scalar, b: Scalar) -> (r: Scalar)
    requires
        a.valid(),
        b.valid(),
        a.mantissa == 0 || b.mantissa == 0 || (a.scale == b.scale && -MANTISSA_MAX <= a.mantissa
            + b.mantissa <= MANTISSA_MAX),
    ensures
        a.mantissa == 0 ==> r == b,
        a.mantissa != 0 && b.mantissa == 0 ==> r == a,
        a.mantissa != 0 && b.mantissa != 0 ==> r.mantissa == a.mantissa + b.mantissa && r.scale
            == a.scale,
{
    let x = rust_decimal::Decimal::from_i128_with_scale(a.mantissa, a.scale);
    let y = rust_decimal::Decimal::from_i128_with_scale(b.mantissa, b.scale);
    let s = x + y;
    Scalar { mantissa: s.mantissa(), scale: s.scale() }
}

/// The `<=` operator of `rust_decimal::Decimal`: the order of two numbers of
/// equal scale, or of a number and zero, is the order of their mantissas.
#[verifier::external_body]
pub(crate) fn decimal_le(a: Scalar, b: Scalar) -> (r: bool)
    requires
        a.valid(),
        b.valid(),
        a.comparable(b),
    ensures
        r == (a.mantissa <= b.mantissa),
{
    let x = rust_decimal::Decimal::from_i128_with_scale(a.mantissa, a.scale);
    let y = rust_decimal::Decimal::from_i128_with_scale(b.mantissa, b.scale);
    x <= y
}

/// The `==` operator of `rust_decimal::Decimal`: two numbers of equal scale,
/// or a number and zero, are equal exactly when their mantissas are.
#[verifier::external_body]
pub(crate) fn decimal_eq(a: Scalar, b: Scalar) -> (r: bool)
    requires
        a.valid(),
        b.valid(),
        a.comparable(b),
    ensures
        r == (a.mantissa == b.mantissa),
{
    let x = rust_decimal::Decimal::from_i128_with_scale(a.mantissa, a.scale);
    let y = rust_decimal::Decimal::from_i128_with_scale(b.mantissa, b.scale);
    x == y
}

} // verus!
