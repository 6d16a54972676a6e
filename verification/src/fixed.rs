//! Fixed-point arithmetic with nine decimal places.
//!
//! Rates, utilization and indices are stored as `raw = value * SCALE`.
//! Amounts are `u64`, so that a product of an amount with an index, or with
//! the share scale, always fits in `u128`.

use vstd::prelude::*;

verus! {

/// The raw value that stands for `1.0`.
pub const SCALE: u64 = 1_000_000_000;

/// The largest index a pool may reach: one billion-fold growth.
pub const MAX_INDEX: u64 = 1_000_000_000_000_000_000;

/// Raw shares per unit of balance at index `1.0`: `SCALE * SCALE`.
pub const SHARE_SCALE: u128 = 1_000_000_000_000_000_000;

/// Dividing by a positive number keeps the order.
pub proof fn lemma_div_monotone(a: int, b: int, d: int)
    requires
        a <= b,
        0 < d,
    ensures
        a / d <= b / d,
{
    vstd::arithmetic::div_mod::lemma_div_is_ordered(a, b, d);
}

/// A product of non-negative factors grows with each factor.
pub proof fn lemma_mul_monotone(a: int, b: int, c: int, d: int)
    requires
        0 <= a <= b,
        0 <= c <= d,
    ensures
        0 <= a * c <= b * d,
{
    assert(0 <= a * c <= b * d) by (nonlinear_arith)
        requires
            0 <= a <= b,
            0 <= c <= d,
    ;
}

/// The floor of a quotient lies within one divisor of the dividend.
pub proof fn lemma_div_bounds(x: int, d: int)
    requires
        0 < d,
    ensures
        (x / d) * d <= x < (x / d) * d + d,
{
    vstd::arithmetic::div_mod::lemma_fundamental_div_mod(x, d);
    vstd::arithmetic::div_mod::lemma_mod_bound(x, d);
    assert(d * (x / d) == (x / d) * d) by (nonlinear_arith);
}

/// A quotient of non-negative numbers is non-negative and no larger than the dividend.
pub proof fn lemma_div_nonneg(x: int, d: int)
    requires
        0 <= x,
        0 < d,
    ensures
        0 <= x / d <= x,
{
    lemma_div_bounds(x, d);
    assert(0 <= x / d <= x) by (nonlinear_arith)
        requires
            0 <= x,
            0 < d,
            (x / d) * d <= x < (x / d) * d + d,
    ;
}

} // verus!
