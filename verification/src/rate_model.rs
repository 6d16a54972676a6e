//! The kinked interest-rate curve.
//!
//! Up to the kink the borrow rate climbs with the utilization along one
//! slope; from the kink on it climbs along a second one. Suppliers earn what
//! borrowers pay, spread over the whole pool, less the reserve's cut.

use vstd::prelude::*;
use crate::fixed::{lemma_div_monotone, lemma_div_nonneg, lemma_mul_monotone, SCALE};
use crate::types::Error;

verus! {

/// The parameters of a pool's rate curve, as raw fixed-point values.
///
/// The fields are signed so that a caller can hand over any number and be
/// told when it is out of range.
#[derive(Clone, Copy, Debug, PartialEq, Eq, Structural)]
pub struct RateParams {
    /// The borrow rate per period at utilization zero.
    pub base_rate: i64,
    /// The slope of the borrow rate below the kink.
    pub multiplier: i64,
    /// The slope of the borrow rate from the kink on.
    pub jump_multiplier: i64,
    /// The utilization at which the slope changes.
    pub kink_utilization: i64,
    /// The fraction of the borrowers' interest that the reserves keep.
    pub reserve_factor: i64,
}

/// The rates of one period, as raw fixed-point values.
#[derive(Clone, Copy, Debug, PartialEq, Eq, Structural)]
pub struct Rates {
    pub borrow_rate: u128,
    pub supply_rate: u128,
}

/// The borrow rate of `p` at utilization `u`.
pub open spec fn borrow_rate_at(p: RateParams, u: int) -> int {
    if u < p.kink_utilization {
        p.base_rate + p.multiplier * u / (SCALE as int)
    } else {
        p.base_rate + p.multiplier * p.kink_utilization / (SCALE as int) + p.jump_multiplier * (u
            - p.kink_utilization) / (SCALE as int)
    }
}

/// The supply rate of `p` at utilization `u`: the borrow rate, times the
/// utilization, times what the reserves leave.
pub open spec fn supply_rate_at(p: RateParams, u: int) -> int {
    borrow_rate_at(p, u) * u * (SCALE - p.reserve_factor) / (SCALE * SCALE)
}

/// The utilization of a pool: the borrowed part of what was supplied, and
/// zero for a pool without supply.
pub open spec fn utilization_of(total_borrowed: int, total_supplied: int) -> int {
    if total_supplied == 0 {
        0
    } else {
        total_borrowed * SCALE / total_supplied
    }
}

impl RateParams {
    /// No rate or slope is negative, and the kink and the reserve factor are
    /// fractions in `[0, 1]`.
    pub open spec fn valid(&self) -> bool {
        &&& 0 <= self.base_rate
        &&& 0 <= self.multiplier
        &&& 0 <= self.jump_multiplier
        &&& 0 <= self.kink_utilization <= SCALE
        &&& 0 <= self.reserve_factor <= SCALE
    }

    /// The curve on which every rate is zero.
    pub open spec fn flat() -> RateParams {
        RateParams {
            base_rate: 0,
            multiplier: 0,
            jump_multiplier: 0,
            kink_utilization: 0,
            reserve_factor: 0,
        }
    }

    /// Checks the parameters.
    pub fn validate(&self) -> (r: Result<(), Error>)
        ensures
            self.valid() ==> r == Ok::<(), Error>(()),
            !self.valid() ==> r == Err::<(), Error>(Error::InvalidParams),
    {
        if self.base_rate < 0 || self.multiplier < 0 || self.jump_multiplier < 0 {
            return Err(Error::InvalidParams);
        }
        if self.kink_utilization < 0 || self.kink_utilization > SCALE as i64 {
            return Err(Error::InvalidParams);
        }
        if self.reserve_factor < 0 || self.reserve_factor > SCALE as i64 {
            return Err(Error::InvalidParams);
        }
        Ok(())
    }

    /// The borrow and supply rates at `utilization`.
    ///
    /// Fails with `InvalidParams` exactly when the parameters are not valid.
    pub fn rates(&self, utilization: u64) -> (r: Result<Rates, Error>)
        requires
            utilization <= SCALE,
        ensures
            self.valid() ==> r == Ok::<Rates, Error>(
                Rates {
                    borrow_rate: borrow_rate_at(*self, utilization as int) as u128,
                    supply_rate: supply_rate_at(*self, utilization as int) as u128,
                },
            ),
            self.valid() ==> 0 <= supply_rate_at(*self, utilization as int) <= borrow_rate_at(
                *self,
                utilization as int,
            ) <= 3 * i64::MAX,
            !self.valid() ==> r == Err::<Rates, Error>(Error::InvalidParams),
    {
        if self.validate().is_err() {
            return Err(Error::InvalidParams);
        }
        let scale: u128 = SCALE as u128;
        let base: u128 = self.base_rate as u128;
        let slope: u128 = self.multiplier as u128;
        let jump: u128 = self.jump_multiplier as u128;
        let kink: u128 = self.kink_utilization as u128;
        let kept: u128 = scale - self.reserve_factor as u128;
        let u: u128 = utilization as u128;
        proof {
            lemma_rate_bounds(*self, utilization as int);
        }
        let borrow_rate: u128 = if u < kink {
            proof {
                lemma_mul_monotone(slope as int, i64::MAX as int, u as int, SCALE as int);
            }
            base + slope * u / scale
        } else {
            proof {
                lemma_mul_monotone(slope as int, i64::MAX as int, kink as int, SCALE as int);
                lemma_mul_monotone(jump as int, i64::MAX as int, u - kink, SCALE as int);
            }
            base + slope * kink / scale + jump * (u - kink) / scale
        };
        proof {
            lemma_mul_monotone(borrow_rate as int, 3 * i64::MAX, u as int, SCALE as int);
            lemma_mul_monotone(
                borrow_rate * u,
                3 * i64::MAX * SCALE,
                kept as int,
                SCALE as int,
            );
        }
        let supply_rate: u128 = borrow_rate * u * kept / (scale * scale);
        Ok(Rates { borrow_rate, supply_rate })
    }
}

/// The utilization of a solvent pool, a fraction in `[0, 1]`.
pub fn utilization(total_borrowed: u64, total_supplied: u64) -> (u: u64)
    requires
        total_borrowed <= total_supplied,
    ensures
        u == utilization_of(total_borrowed as int, total_supplied as int),
        0 <= u <= SCALE,
{
    proof {
        lemma_utilization_is_fraction(total_borrowed as int, total_supplied as int);
    }
    if total_supplied == 0 {
        0
    } else {
        assert(total_borrowed * SCALE <= u64::MAX * SCALE) by (nonlinear_arith)
            requires
                total_borrowed <= u64::MAX,
        ;
        let wide: u128 = (total_borrowed as u128) * (SCALE as u128) / (total_supplied as u128);
        wide as u64
    }
}

/// The utilization of a pool that has lent out no more than it holds lies in
/// `[0, 1]`.
pub proof fn lemma_utilization_is_fraction(total_borrowed: int, total_supplied: int)
    requires
        0 <= total_borrowed <= total_supplied,
    ensures
        0 <= utilization_of(total_borrowed, total_supplied) <= SCALE,
{
    if total_supplied != 0 {
        let s = SCALE as int;
        lemma_mul_monotone(total_borrowed, total_supplied, s, s);
        lemma_div_nonneg(total_borrowed * s, total_supplied);
        lemma_div_monotone(total_borrowed * s, total_supplied * s, total_supplied);
        assert(total_supplied * s / total_supplied == s) by (nonlinear_arith)
            requires
                total_supplied > 0,
        ;
    }
}

/// With valid parameters and a utilization in `[0, 1]`, neither rate is
/// negative, suppliers never earn more than borrowers pay, and the borrow
/// rate stays below three times the largest parameter.
pub proof fn lemma_rate_bounds(p: RateParams, u: int)
    requires
        p.valid(),
        0 <= u <= SCALE,
    ensures
        0 <= supply_rate_at(p, u) <= borrow_rate_at(p, u) <= 3 * i64::MAX,
        p.base_rate <= borrow_rate_at(p, u),
{
    let s = SCALE as int;
    let k = p.kink_utilization as int;
    let b = borrow_rate_at(p, u);
    if u < k {
        lemma_mul_monotone(p.multiplier as int, i64::MAX as int, u, s);
        lemma_div_nonneg(p.multiplier * u, s);
        lemma_div_monotone(p.multiplier * u, i64::MAX * s, s);
    } else {
        lemma_mul_monotone(p.multiplier as int, i64::MAX as int, k, s);
        lemma_div_nonneg(p.multiplier * k, s);
        lemma_div_monotone(p.multiplier * k, i64::MAX * s, s);
        lemma_mul_monotone(p.jump_multiplier as int, i64::MAX as int, u - k, s);
        lemma_div_nonneg(p.jump_multiplier * (u - k), s);
        lemma_div_monotone(p.jump_multiplier * (u - k), i64::MAX * s, s);
    }
    assert(i64::MAX * s / s == i64::MAX) by (nonlinear_arith)
        requires
            s > 0,
    ;
    let kept = s - p.reserve_factor;
    lemma_mul_monotone(b, b, u, s);
    lemma_mul_monotone(b * u, b * s, kept, s);
    lemma_div_nonneg(b * u * kept, s * s);
    lemma_div_monotone(b * u * kept, b * s * s, s * s);
    assert(b * s * s / (s * s) == b) by (nonlinear_arith)
        requires
            s > 0,
    ;
}

/// Both rates grow, or stay, as the utilization grows.
pub proof fn lemma_rates_monotone(p: RateParams, u1: int, u2: int)
    requires
        p.valid(),
        0 <= u1 <= u2 <= SCALE,
    ensures
        borrow_rate_at(p, u1) <= borrow_rate_at(p, u2),
        supply_rate_at(p, u1) <= supply_rate_at(p, u2),
{
    let s = SCALE as int;
    let k = p.kink_utilization as int;
    let m = p.multiplier as int;
    let j = p.jump_multiplier as int;
    if u2 < k {
        lemma_mul_monotone(m, m, u1, u2);
        lemma_div_monotone(m * u1, m * u2, s);
    } else if u1 < k {
        lemma_mul_monotone(m, m, u1, k);
        lemma_div_monotone(m * u1, m * k, s);
        lemma_mul_monotone(j, j, 0, u2 - k);
        lemma_div_nonneg(j * (u2 - k), s);
    } else {
        lemma_mul_monotone(j, j, u1 - k, u2 - k);
        lemma_div_monotone(j * (u1 - k), j * (u2 - k), s);
    }
    let b1 = borrow_rate_at(p, u1);
    let b2 = borrow_rate_at(p, u2);
    lemma_rate_bounds(p, u1);
    let kept = s - p.reserve_factor;
    lemma_mul_monotone(b1, b2, u1, u2);
    lemma_mul_monotone(b1 * u1, b2 * u2, kept, kept);
    lemma_div_monotone(b1 * u1 * kept, b2 * u2 * kept, s * s);
}

} // verus!
