//! The record of one pool.

use vstd::prelude::*;
use crate::fixed::{MAX_INDEX, SCALE};
use crate::rate_model::{utilization_of, RateParams};
use crate::types::{AssetId, Balance, Error, Timestamp};

verus! {

/// Whether a pool takes new supply and new borrows.
#[derive(Clone, Copy, Debug, PartialEq, Eq, Structural)]
pub enum PoolStatus {
    Active,
    Inactive,
}

/// All that the ledger knows of one asset's pool.
#[derive(Clone, Copy, Debug, PartialEq, Eq, Structural)]
pub struct LendingPool {
    /// The asset of the pool.
    pub id: AssetId,
    /// The principal that suppliers have put in and not taken out.
    pub total_supplied: Balance,
    /// The principal that borrowers have taken out and not paid back.
    pub total_borrowed: Balance,
    /// The interest that the protocol has kept for itself.
    pub reserves: Balance,
    /// The growth of one unit supplied when the pool was opened.
    pub supply_index: u64,
    /// The growth of one unit borrowed when the pool was opened.
    pub borrow_index: u64,
    /// The period up to which interest has been compounded.
    pub last_accrual: Timestamp,
    /// The rate curve.
    pub params: RateParams,
    /// Whether new supply and new borrows are taken.
    pub status: PoolStatus,
    /// Set by an overflow during accrual; cleared only by thawing.
    pub frozen: bool,
}

impl LendingPool {
    /// The pool is solvent, its parameters are valid, and both indices lie
    /// between `1.0` and the largest index.
    pub open spec fn wf(&self) -> bool {
        &&& self.params.valid()
        &&& self.total_borrowed <= self.total_supplied
        &&& SCALE <= self.supply_index <= MAX_INDEX
        &&& SCALE <= self.borrow_index <= MAX_INDEX
    }

    /// The pool as it is opened: nothing supplied, nothing borrowed, both
    /// indices at `1.0`, active.
    pub open spec fn opened(id: AssetId, params: RateParams, now: Timestamp) -> LendingPool {
        LendingPool {
            id,
            total_supplied: 0,
            total_borrowed: 0,
            reserves: 0,
            supply_index: SCALE,
            borrow_index: SCALE,
            last_accrual: now,
            params,
            status: PoolStatus::Active,
            frozen: false,
        }
    }

    /// The borrowed fraction of the supplied principal.
    pub open spec fn utilization(&self) -> int {
        utilization_of(self.total_borrowed as int, self.total_supplied as int)
    }

    /// What can still be lent out: the supplied principal that is neither
    /// borrowed nor set aside as reserves.
    pub open spec fn available(&self) -> int {
        if self.total_supplied - self.total_borrowed >= self.reserves {
            self.total_supplied - self.total_borrowed - self.reserves
        } else {
            0
        }
    }

    /// Opens a pool for `id` at time `now`.
    ///
    /// Fails with `InvalidParams` exactly when `params` is not valid.
    pub fn open(id: AssetId, params: RateParams, now: Timestamp) -> (r: Result<LendingPool, Error>)
        ensures
            params.valid() ==> r == Ok::<LendingPool, Error>(Self::opened(id, params, now)),
            !params.valid() ==> r == Err::<LendingPool, Error>(Error::InvalidParams),
            r matches Ok(pool) ==> pool.wf(),
    {
        if params.validate().is_err() {
            return Err(Error::InvalidParams);
        }
        Ok(
            LendingPool {
                id,
                total_supplied: 0,
                total_borrowed: 0,
                reserves: 0,
                supply_index: SCALE,
                borrow_index: SCALE,
                last_accrual: now,
                params,
                status: PoolStatus::Active,
                frozen: false,
            },
        )
    }

    /// A pool for `id` that holds `balance_free` idle units: nothing borrowed,
    /// both indices at `1.0`, every rate at zero, active, with interest
    /// counted from period zero.
    pub fn from(id: AssetId, balance_free: Balance) -> (pool: LendingPool)
        ensures
            pool == (LendingPool {
                total_supplied: balance_free,
                ..Self::opened(id, RateParams::flat(), 0)
            }),
            pool.wf(),
            pool.available() == balance_free,
    {
        LendingPool {
            id,
            total_supplied: balance_free,
            total_borrowed: 0,
            reserves: 0,
            supply_index: SCALE,
            borrow_index: SCALE,
            last_accrual: 0,
            params: RateParams {
                base_rate: 0,
                multiplier: 0,
                jump_multiplier: 0,
                kink_utilization: 0,
                reserve_factor: 0,
            },
            status: PoolStatus::Active,
            frozen: false,
        }
    }

    /// Whether the record satisfies [`LendingPool::wf`].
    pub fn is_wf(&self) -> (b: bool)
        ensures
            b == self.wf(),
    {
        self.params.validate().is_ok() && self.total_borrowed <= self.total_supplied && SCALE
            <= self.supply_index && self.supply_index <= MAX_INDEX && SCALE <= self.borrow_index
            && self.borrow_index <= MAX_INDEX
    }

    /// What can still be lent out.
    pub fn available_liquidity(&self) -> (a: Balance)
        requires
            self.wf(),
        ensures
            a == self.available(),
            a <= self.total_supplied - self.total_borrowed,
    {
        let idle: Balance = self.total_supplied - self.total_borrowed;
        if idle >= self.reserves {
            idle - self.reserves
        } else {
            0
        }
    }

    /// The supplied principal after a change by `delta`, or the reason why
    /// the change is turned down: the pool would hold less than it has lent
    /// out, or more than can be stored.
    pub open spec fn supplied_after(&self, delta: int) -> Result<Balance, Error> {
        if self.total_supplied + delta < self.total_borrowed {
            Err(Error::InsufficientPoolLiquidity)
        } else if self.total_supplied + delta > u64::MAX {
            Err(Error::BalanceOverflow)
        } else {
            Ok((self.total_supplied + delta) as u64)
        }
    }

    /// The borrowed principal after a change by `delta`, or the reason why
    /// the change is turned down: the pool would have lent out more than it
    /// holds, or less than nothing.
    pub open spec fn borrowed_after(&self, delta: int) -> Result<Balance, Error> {
        if self.total_borrowed + delta > self.total_supplied {
            Err(Error::InsufficientPoolLiquidity)
        } else if self.total_borrowed + delta < 0 {
            Err(Error::BalanceOverflow)
        } else {
            Ok((self.total_borrowed + delta) as u64)
        }
    }

    /// Changes the supplied principal by `delta`, unless that would break
    /// solvency or leave the range of a balance.
    pub fn adjust_supplied(&mut self, delta: i128) -> (r: Result<(), Error>)
        requires
            old(self).wf(),
        ensures
            final(self).wf(),
            match old(self).supplied_after(delta as int) {
                Ok(total) => r == Ok::<(), Error>(()) && *final(self) == (LendingPool {
                    total_supplied: total,
                    ..*old(self)
                }),
                Err(e) => r == Err::<(), Error>(e) && *final(self) == *old(self),
            },
    {
        if delta < 0 {
            let room: i128 = self.total_supplied as i128 - self.total_borrowed as i128;
            if delta < -room {
                return Err(Error::InsufficientPoolLiquidity);
            }
            self.total_supplied = (self.total_supplied as i128 + delta) as u64;
        } else {
            let room: i128 = u64::MAX as i128 - self.total_supplied as i128;
            if delta > room {
                return Err(Error::BalanceOverflow);
            }
            self.total_supplied = (self.total_supplied as i128 + delta) as u64;
        }
        Ok(())
    }

    /// Changes the borrowed principal by `delta`, unless that would break
    /// solvency or leave the range of a balance.
    pub fn adjust_borrowed(&mut self, delta: i128) -> (r: Result<(), Error>)
        requires
            old(self).wf(),
        ensures
            final(self).wf(),
            match old(self).borrowed_after(delta as int) {
                Ok(total) => r == Ok::<(), Error>(()) && *final(self) == (LendingPool {
                    total_borrowed: total,
                    ..*old(self)
                }),
                Err(e) => r == Err::<(), Error>(e) && *final(self) == *old(self),
            },
    {
        if delta < 0 {
            if delta < -(self.total_borrowed as i128) {
                return Err(Error::BalanceOverflow);
            }
            self.total_borrowed = (self.total_borrowed as i128 + delta) as u64;
        } else {
            let room: i128 = self.total_supplied as i128 - self.total_borrowed as i128;
            if delta > room {
                return Err(Error::InsufficientPoolLiquidity);
            }
            self.total_borrowed = (self.total_borrowed as i128 + delta) as u64;
        }
        Ok(())
    }
}

} // verus!
