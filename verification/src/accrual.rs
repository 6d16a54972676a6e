//! Interest accrual: moving a pool's indices forward in time.
//!
//! An index is multiplied by `1 + rate` once for each period that has gone
//! by, and rounded down after each multiplication. The rates are those of the
//! utilization that the pool had over that stretch of time.

use vstd::prelude::*;
use crate::fixed::{lemma_div_monotone, lemma_div_nonneg, lemma_mul_monotone, MAX_INDEX, SCALE};
use crate::pool::LendingPool;
use crate::rate_model::{
    borrow_rate_at,
    lemma_rate_bounds,
    lemma_utilization_is_fraction,
    supply_rate_at,
    utilization,
};
use crate::types::{Error, Timestamp};

verus! {

/// An index after one period at `rate`.
pub open spec fn compound_step(index: int, rate: int) -> int {
    index * (SCALE + rate) / (SCALE as int)
}

/// An index after `periods` periods at `rate`.
pub open spec fn compound(index: int, rate: int, periods: nat) -> int
    decreases periods,
{
    if periods == 0 {
        index
    } else {
        compound(compound_step(index, rate), rate, (periods - 1) as nat)
    }
}

/// One period never lowers an index.
pub proof fn lemma_compound_step_grows(index: int, rate: int)
    requires
        0 <= index,
        0 <= rate,
    ensures
        index <= compound_step(index, rate),
{
    let s = SCALE as int;
    lemma_mul_monotone(index, index, s, s + rate);
    lemma_div_monotone(index * s, index * (s + rate), s);
    assert(index * s / s == index) by (nonlinear_arith)
        requires
            s > 0,
    ;
}

/// No number of periods lowers an index.
pub proof fn lemma_compound_grows(index: int, rate: int, periods: nat)
    requires
        0 <= index,
        0 <= rate,
    ensures
        index <= compound(index, rate, periods),
    decreases periods,
{
    if periods > 0 {
        lemma_compound_step_grows(index, rate);
        lemma_compound_grows(compound_step(index, rate), rate, (periods - 1) as nat);
    }
}

/// An index that one period leaves alone stays where it is for good.
pub proof fn lemma_compound_fixed(index: int, rate: int, periods: nat)
    requires
        compound_step(index, rate) == index,
    ensures
        compound(index, rate, periods) == index,
    decreases periods,
{
    if periods > 0 {
        lemma_compound_fixed(index, rate, (periods - 1) as nat);
    }
}

/// Compounding over `a + b` periods is compounding over `a` and then over `b`.
pub proof fn lemma_compound_split(index: int, rate: int, a: nat, b: nat)
    ensures
        compound(index, rate, a + b) == compound(compound(index, rate, a), rate, b),
    decreases a,
{
    if a > 0 {
        lemma_compound_split(compound_step(index, rate), rate, (a - 1) as nat, b);
        assert((a + b - 1) as nat == (a - 1) as nat + b);
    }
}

/// A step whose exact product does not fit in 128 bits ends far above the
/// largest index.
proof fn lemma_step_of_huge_product(index: int, factor: int)
    requires
        index * factor > u128::MAX,
    ensures
        index * factor / (SCALE as int) > MAX_INDEX,
{
    let s = SCALE as int;
    lemma_div_monotone(u128::MAX as int, index * factor, s);
    assert(u128::MAX as int / 1_000_000_000 > MAX_INDEX);
}

/// Compounds `index` over `periods` periods at `rate`.
///
/// Returns `None` exactly when the result lies above the largest index.
pub fn compound_index(index: u64, rate: u128, periods: u64) -> (r: Option<u64>)
    ensures
        compound(index as int, rate as int, periods as nat) <= MAX_INDEX ==> r == Some(
            compound(index as int, rate as int, periods as nat) as u64,
        ),
        compound(index as int, rate as int, periods as nat) > MAX_INDEX ==> r is None,
{
    let ghost goal = compound(index as int, rate as int, periods as nat);
    proof {
        lemma_compound_grows(index as int, rate as int, periods as nat);
    }
    if index > MAX_INDEX {
        return None;
    }
    if periods == 0 || index == 0 {
        proof {
            assert(0 * (SCALE + rate) == 0) by (nonlinear_arith);
            if index == 0 {
                lemma_compound_fixed(0, rate as int, periods as nat);
            }
        }
        return Some(index);
    }
    let factor: u128 = match (SCALE as u128).checked_add(rate) {
        Some(f) => f,
        None => {
            proof {
                lemma_mul_monotone(1, index as int, u128::MAX + 1, SCALE + rate);
                lemma_step_of_huge_product(index as int, SCALE + rate);
                lemma_compound_grows(
                    compound_step(index as int, rate as int),
                    rate as int,
                    (periods - 1) as nat,
                );
            }
            return None;
        },
    };
    let mut current: u64 = index;
    let mut done: u64 = 0;
    while done < periods
        invariant
            done <= periods,
            current <= MAX_INDEX,
            factor == SCALE + rate,
            goal == compound(index as int, rate as int, periods as nat),
            goal == compound(current as int, rate as int, (periods - done) as nat),
        decreases periods - done,
    {
        proof {
            lemma_compound_step_grows(current as int, rate as int);
            lemma_compound_grows(
                compound_step(current as int, rate as int),
                rate as int,
                (periods - done - 1) as nat,
            );
        }
        let next: u128 = match (current as u128).checked_mul(factor) {
            Some(product) => product / (SCALE as u128),
            None => {
                proof {
                    lemma_step_of_huge_product(current as int, factor as int);
                }
                return None;
            },
        };
        if next > MAX_INDEX as u128 {
            return None;
        }
        if next == current as u128 {
            proof {
                lemma_compound_fixed(current as int, rate as int, (periods - done) as nat);
            }
            return Some(current);
        }
        current = next as u64;
        done = done + 1;
    }
    Some(current)
}

impl LendingPool {
    /// The periods between the last accrual and `now`; none if `now` is not
    /// later.
    pub open spec fn elapsed(&self, now: Timestamp) -> nat {
        if now > self.last_accrual {
            (now - self.last_accrual) as nat
        } else {
            0
        }
    }

    /// The borrow index once the periods up to `now` are compounded.
    pub open spec fn borrow_index_at(&self, now: Timestamp) -> int {
        compound(
            self.borrow_index as int,
            borrow_rate_at(self.params, self.utilization()),
            self.elapsed(now),
        )
    }

    /// The supply index once the periods up to `now` are compounded.
    pub open spec fn supply_index_at(&self, now: Timestamp) -> int {
        compound(
            self.supply_index as int,
            supply_rate_at(self.params, self.utilization()),
            self.elapsed(now),
        )
    }

    /// The interest that the borrowed principal gathers up to `now`.
    pub open spec fn interest_at(&self, now: Timestamp) -> int {
        self.total_borrowed * (self.borrow_index_at(now) - self.borrow_index) / (
        self.borrow_index as int)
    }

    /// The reserves once their cut of the interest up to `now` is added.
    pub open spec fn reserves_at(&self, now: Timestamp) -> int {
        self.reserves + self.interest_at(now) * self.params.reserve_factor / (SCALE as int)
    }

    /// Whether compounding up to `now` leaves the range of an index or of
    /// the reserves.
    pub open spec fn accrual_overflows(&self, now: Timestamp) -> bool {
        ||| self.borrow_index_at(now) > MAX_INDEX
        ||| self.supply_index_at(now) > MAX_INDEX
        ||| self.reserves_at(now) > u64::MAX
    }

    /// The pool once the periods up to `now` are compounded. The principals
    /// stay as they are: what borrowers owe grows through the index alone.
    pub open spec fn accrued(&self, now: Timestamp) -> LendingPool {
        LendingPool {
            supply_index: self.supply_index_at(now) as u64,
            borrow_index: self.borrow_index_at(now) as u64,
            reserves: self.reserves_at(now) as u64,
            last_accrual: now,
            ..*self
        }
    }

    /// The pool after a call of [`LendingPool::accrue`], and what the call
    /// returns.
    pub open spec fn accrual_outcome(&self, now: Timestamp) -> (LendingPool, Result<(), Error>) {
        if self.frozen {
            (*self, Err(Error::PoolFrozen))
        } else if self.elapsed(now) == 0 {
            (*self, Ok(()))
        } else if self.accrual_overflows(now) {
            (LendingPool { frozen: true, ..*self }, Err(Error::ArithmeticOverflow))
        } else {
            (self.accrued(now), Ok(()))
        }
    }

    /// Compounds both indices up to `now` and adds the reserves' cut.
    ///
    /// A frozen pool is turned down with `PoolFrozen`. Where no period has
    /// gone by, nothing changes. Where an index or the reserves would leave
    /// their range, the pool is frozen, nothing else changes, and the call
    /// fails with `ArithmeticOverflow`.
    pub fn accrue(&mut self, now: Timestamp) -> (r: Result<(), Error>)
        requires
            old(self).wf(),
        ensures
            (*final(self), r) == old(self).accrual_outcome(now),
            final(self).wf(),
            final(self).total_supplied == old(self).total_supplied,
            final(self).total_borrowed == old(self).total_borrowed,
            final(self).supply_index >= old(self).supply_index,
            final(self).borrow_index >= old(self).borrow_index,
            final(self).reserves >= old(self).reserves,
    {
        if self.frozen {
            return Err(Error::PoolFrozen);
        }
        if now <= self.last_accrual {
            return Ok(());
        }
        let periods: u64 = now - self.last_accrual;
        let u: u64 = utilization(self.total_borrowed, self.total_supplied);
        proof {
            lemma_rate_bounds(self.params, u as int);
            lemma_accrual_grows(*self, now);
        }
        let rates = match self.params.rates(u) {
            Ok(rates) => rates,
            Err(e) => {
                return Err(e);
            },
        };
        let borrow_index: u64 = match compound_index(
            self.borrow_index,
            rates.borrow_rate,
            periods,
        ) {
            Some(index) => index,
            None => {
                self.frozen = true;
                return Err(Error::ArithmeticOverflow);
            },
        };
        let supply_index: u64 = match compound_index(
            self.supply_index,
            rates.supply_rate,
            periods,
        ) {
            Some(index) => index,
            None => {
                self.frozen = true;
                return Err(Error::ArithmeticOverflow);
            },
        };
        let growth: u128 = (borrow_index - self.borrow_index) as u128;
        proof {
            lemma_interest_bound(
                self.total_borrowed as int,
                growth as int,
                self.borrow_index as int,
            );
        }
        let interest: u128 = (self.total_borrowed as u128) * growth / (self.borrow_index as u128);
        proof {
            lemma_mul_monotone(
                interest as int,
                u64::MAX * SCALE,
                self.params.reserve_factor as int,
                SCALE as int,
            );
        }
        let cut: u128 = interest * (self.params.reserve_factor as u128) / (SCALE as u128);
        let reserves: u128 = self.reserves as u128 + cut;
        if reserves > u64::MAX as u128 {
            self.frozen = true;
            return Err(Error::ArithmeticOverflow);
        }
        self.supply_index = supply_index;
        self.borrow_index = borrow_index;
        self.reserves = reserves as u64;
        self.last_accrual = now;
        Ok(())
    }
}

/// The interest on a principal over one accrual fits comfortably in 128 bits.
proof fn lemma_interest_bound(principal: int, growth: int, index: int)
    requires
        0 <= principal <= u64::MAX,
        0 <= growth <= MAX_INDEX,
        SCALE <= index,
    ensures
        0 <= principal * growth <= u64::MAX * MAX_INDEX,
        0 <= principal * growth / index <= u64::MAX * SCALE,
{
    let s = SCALE as int;
    lemma_mul_monotone(principal, u64::MAX as int, growth, MAX_INDEX as int);
    lemma_div_nonneg(principal * growth, index);
    vstd::arithmetic::div_mod::lemma_div_is_ordered_by_denominator(principal * growth, s, index);
    lemma_div_monotone(principal * growth, u64::MAX * MAX_INDEX, s);
    assert(u64::MAX * MAX_INDEX / 1_000_000_000 == u64::MAX * SCALE);
}

/// Accrual lowers neither index nor the reserves.
pub proof fn lemma_accrual_grows(pool: LendingPool, now: Timestamp)
    requires
        pool.wf(),
    ensures
        pool.supply_index <= pool.supply_index_at(now),
        pool.borrow_index <= pool.borrow_index_at(now),
        0 <= pool.interest_at(now),
        pool.reserves <= pool.reserves_at(now),
{
    let u = pool.utilization();
    lemma_utilization_is_fraction(pool.total_borrowed as int, pool.total_supplied as int);
    lemma_rate_bounds(pool.params, u);
    let periods = pool.elapsed(now);
    lemma_compound_grows(pool.supply_index as int, supply_rate_at(pool.params, u), periods);
    lemma_compound_grows(pool.borrow_index as int, borrow_rate_at(pool.params, u), periods);
    let growth = pool.borrow_index_at(now) - pool.borrow_index;
    lemma_mul_monotone(0, pool.total_borrowed as int, 0, growth);
    lemma_div_nonneg(pool.total_borrowed * growth, pool.borrow_index as int);
    lemma_mul_monotone(0, pool.interest_at(now), 0, pool.params.reserve_factor as int);
    lemma_div_nonneg(pool.interest_at(now) * pool.params.reserve_factor, SCALE as int);
}

/// Accrual keeps a pool well formed, whatever its outcome: the principals
/// are not touched, so the pool stays solvent, and the indices stay in range.
pub proof fn lemma_accrual_keeps_wf(pool: LendingPool, now: Timestamp)
    requires
        pool.wf(),
    ensures
        pool.accrual_outcome(now).0.wf(),
        pool.accrual_outcome(now).0.id == pool.id,
        pool.accrual_outcome(now).0.total_supplied == pool.total_supplied,
        pool.accrual_outcome(now).0.total_borrowed == pool.total_borrowed,
        pool.accrual_outcome(now).0.supply_index >= pool.supply_index,
        pool.accrual_outcome(now).0.borrow_index >= pool.borrow_index,
{
    lemma_accrual_grows(pool, now);
}

/// The pool after one call of [`LendingPool::accrue`] for each of `times`, in
/// the order of the sequence.
pub open spec fn accrued_through(pool: LendingPool, times: Seq<Timestamp>) -> LendingPool
    decreases times.len(),
{
    if times.len() == 0 {
        pool
    } else {
        accrued_through(pool.accrual_outcome(times[0]).0, times.drop_first())
    }
}

/// However many times interest is accrued, and at whatever times, neither
/// index ever goes down, and the pool stays solvent.
pub proof fn lemma_indices_never_fall(pool: LendingPool, times: Seq<Timestamp>)
    requires
        pool.wf(),
    ensures
        accrued_through(pool, times).wf(),
        accrued_through(pool, times).supply_index >= pool.supply_index,
        accrued_through(pool, times).borrow_index >= pool.borrow_index,
    decreases times.len(),
{
    if times.len() > 0 {
        lemma_accrual_keeps_wf(pool, times[0]);
        lemma_indices_never_fall(pool.accrual_outcome(times[0]).0, times.drop_first());
    }
}

/// The indices do not depend on how often interest is accrued: stopping at
/// `halfway` on the way to `now` leads to the same two indices as going there
/// at once.
pub proof fn lemma_accrual_in_steps(pool: LendingPool, halfway: Timestamp, now: Timestamp)
    requires
        pool.wf(),
        pool.last_accrual <= halfway <= now,
        !pool.accrual_overflows(halfway),
    ensures
        pool.accrued(halfway).borrow_index_at(now) == pool.borrow_index_at(now),
        pool.accrued(halfway).supply_index_at(now) == pool.supply_index_at(now),
{
    let u = pool.utilization();
    let first = (halfway - pool.last_accrual) as nat;
    let second = (now - halfway) as nat;
    lemma_accrual_grows(pool, halfway);
    lemma_compound_split(pool.borrow_index as int, borrow_rate_at(pool.params, u), first, second);
    lemma_compound_split(pool.supply_index as int, supply_rate_at(pool.params, u), first, second);
}

/// Accruing a second time at the same moment changes nothing: no period has
/// gone by since the first.
pub proof fn lemma_accrue_twice(pool: LendingPool, now: Timestamp)
    ensures
        pool.accrual_outcome(now).0.accrual_outcome(now).0 == pool.accrual_outcome(now).0,
        pool.accrual_outcome(now).1 is Ok ==> pool.accrual_outcome(now).0.accrual_outcome(now).1
            is Ok,
{
}

} // verus!
