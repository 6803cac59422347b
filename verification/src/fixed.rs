//! Saturating integer arithmetic shared by the controllers.
//!
//! Quantities live in `i64`. Intermediate products are formed in `i128`,
//! where they cannot overflow, and are brought back by saturation, so that
//! every operation is total and its result is a function of the exact
//! mathematical value.

use vstd::prelude::*;

verus! {

/// The value of the `i64` range nearest to `value`.
pub open spec fn saturated(value: int) -> int {
    if value < i64::MIN {
        i64::MIN as int
    } else if value > i64::MAX {
        i64::MAX as int
    } else {
        value
    }
}

/// The value of the `i128` range nearest to `value`.
pub open spec fn saturated_wide(value: int) -> int {
    if value < i128::MIN {
        i128::MIN as int
    } else if value > i128::MAX {
        i128::MAX as int
    } else {
        value
    }
}

/// The quotient of `numerator` by a positive `denominator`, rounded toward
/// zero.
pub open spec fn truncated_quotient(numerator: int, denominator: int) -> int
    recommends
        denominator > 0,
{
    if numerator >= 0 {
        numerator / denominator
    } else {
        -((-numerator) / denominator)
    }
}

/// The absolute value of an integer.
pub open spec fn magnitude(value: int) -> int {
    if value < 0 { -value } else { value }
}

/// `value` limited to the symmetric range of a non-negative `limit`.
pub open spec fn limited(value: int, limit: int) -> int
    recommends
        limit >= 0,
{
    if value > limit {
        limit
    } else if value < -limit {
        -limit
    } else {
        value
    }
}

/// A product is bounded by the product of the bounds of its factors.
pub proof fn lemma_product_magnitude(a: int, b: int, m: int, n: int)
    by (nonlinear_arith)
    requires
        -m <= a <= m,
        -n <= b <= n,
    ensures
        -(m * n) <= a * b <= m * n,
{
}

/// The exact product of two values, formed in the wide type.
pub(crate) fn product(a: i64, b: i64) -> (r: i128)
    ensures
        r == a * b,
        -0x4000_0000_0000_0000_0000_0000_0000_0000 <= r <= 0x4000_0000_0000_0000_0000_0000_0000_0000,
{
    proof {
        lemma_product_magnitude(
            a as int,
            b as int,
            0x8000_0000_0000_0000,
            0x8000_0000_0000_0000,
        );
    }
    a as i128 * b as i128
}

/// The exact product of a wide value of bounded size and a value.
pub(crate) fn scaled(a: i128, b: i64) -> (r: i128)
    requires
        -0xffff_ffff_ffff_ffff <= a <= 0xffff_ffff_ffff_ffff,
    ensures
        r == a * b,
        r == b * a,
{
    proof {
        lemma_product_magnitude(
            a as int,
            b as int,
            0xffff_ffff_ffff_ffff,
            0x8000_0000_0000_0000,
        );
        assert(a * b == b * a) by (nonlinear_arith);
    }
    a * b as i128
}

/// Brings a wide value back into `i64` by saturation.
pub fn saturate(value: i128) -> (r: i64)
    ensures
        r == saturated(value as int),
{
    if value < i64::MIN as i128 {
        i64::MIN
    } else if value > i64::MAX as i128 {
        i64::MAX
    } else {
        value as i64
    }
}

/// Adds two wide values, saturating at the ends of the `i128` range.
pub(crate) fn add_wide(x: i128, y: i128) -> (r: i128)
    ensures
        r == saturated_wide(x + y),
{
    if x >= 0 && y > i128::MAX - x {
        i128::MAX
    } else if x < 0 && y < i128::MIN - x {
        i128::MIN
    } else {
        x + y
    }
}

/// The saturated sum of three wide values. The exact sum may lie outside
/// `i128`; the result is nevertheless the saturation of the exact sum.
pub(crate) fn saturating_sum3(a: i128, b: i128, c: i128) -> (r: i64)
    ensures
        r == saturated(a + b + c),
{
    // Two terms of opposite sign are added first: their sum cannot
    // overflow. If all three share a sign, saturation only ever moves
    // further in that direction.
    if (a >= 0) != (b >= 0) {
        saturate(add_wide(add_wide(a, b), c))
    } else if (a >= 0) != (c >= 0) {
        saturate(add_wide(add_wide(a, c), b))
    } else {
        saturate(add_wide(add_wide(a, b), c))
    }
}

/// Limits `value` to the symmetric range of `limit`.
pub fn limit_symmetric(value: i64, limit: i64) -> (r: i64)
    requires
        limit >= 0,
    ensures
        r == limited(value as int, limit as int),
        -limit <= r <= limit,
{
    if value > limit {
        limit
    } else if value < -limit {
        -limit
    } else {
        value
    }
}

} // verus!
