//! The store of pools, keyed by asset.

use std::collections::HashMap;
use vstd::prelude::*;
use crate::pool::{LendingPool, PoolStatus};
use crate::rate_model::RateParams;
use crate::types::{AssetId, Error, Timestamp};

verus! {

broadcast use vstd::std_specs::hash::group_hash_axioms;

/// Owns every pool record. No pool is reached but through its asset.
pub struct PoolLedger {
    pools: HashMap<AssetId, LendingPool>,
}

/// The type of a pool ledger's view.
pub type Pools = Map<AssetId, LendingPool>;

impl View for PoolLedger {
    type V = Pools;

    closed spec fn view(&self) -> Pools {
        self.pools@
    }
}

/// Every pool is well formed, hence solvent, and is stored under its own
/// asset.
pub open spec fn pools_wf(pools: Pools) -> bool {
    forall|asset: AssetId| #[trigger]
        pools.contains_key(asset) ==> pools[asset].wf() && pools[asset].id == asset
}

/// The pool with its status set to `status`.
pub open spec fn with_status(pool: LendingPool, status: PoolStatus) -> LendingPool {
    LendingPool { status, ..pool }
}

/// The pool thawed at `now`: no longer frozen, and with the periods up to
/// `now` left out of its interest.
pub open spec fn thawed(pool: LendingPool, now: Timestamp) -> LendingPool {
    LendingPool {
        frozen: false,
        last_accrual: if now > pool.last_accrual {
            now
        } else {
            pool.last_accrual
        },
        ..pool
    }
}

/// The pool and the result after interest is compounded up to `now` and the
/// rate curve is then replaced by `params`.
pub open spec fn rate_model_outcome(pool: LendingPool, params: RateParams, now: Timestamp) -> (
    LendingPool,
    Result<(), Error>,
) {
    let (settled, accrual) = pool.accrual_outcome(now);
    if !params.valid() {
        (pool, Err(Error::InvalidParams))
    } else if accrual is Err {
        (settled, accrual)
    } else {
        (LendingPool { params, ..settled }, Ok(()))
    }
}

/// The pool and the result after interest is compounded up to `now` and the
/// supplied principal is then changed by `delta`.
pub open spec fn supplied_outcome(pool: LendingPool, delta: int, now: Timestamp) -> (
    LendingPool,
    Result<(), Error>,
) {
    let (settled, accrual) = pool.accrual_outcome(now);
    if accrual is Err {
        (settled, accrual)
    } else {
        match settled.supplied_after(delta) {
            Ok(total) => (LendingPool { total_supplied: total, ..settled }, Ok(())),
            Err(e) => (pool, Err(e)),
        }
    }
}

/// The pool and the result after interest is compounded up to `now` and the
/// borrowed principal is then changed by `delta`.
pub open spec fn borrowed_outcome(pool: LendingPool, delta: int, now: Timestamp) -> (
    LendingPool,
    Result<(), Error>,
) {
    let (settled, accrual) = pool.accrual_outcome(now);
    if accrual is Err {
        (settled, accrual)
    } else {
        match settled.borrowed_after(delta) {
            Ok(total) => (LendingPool { total_borrowed: total, ..settled }, Ok(())),
            Err(e) => (pool, Err(e)),
        }
    }
}

/// The pools and the result after an operation on the pool of `asset` that
/// leaves the pool and the result of `outcome`: without the pool the
/// operation fails with `PoolDoesNotExist`.
pub open spec fn on_pool(
    pools: Pools,
    asset: AssetId,
    outcome: (LendingPool, Result<(), Error>),
) -> (Pools, Result<(), Error>) {
    if pools.contains_key(asset) {
        (pools.insert(asset, outcome.0), outcome.1)
    } else {
        (pools, Err(Error::PoolDoesNotExist))
    }
}

/// The pools and the result after [`PoolLedger::add_pool`].
pub open spec fn after_add_pool(
    pools: Pools,
    asset: AssetId,
    params: RateParams,
    now: Timestamp,
) -> (Pools, Result<(), Error>) {
    if pools.contains_key(asset) {
        (pools, Err(Error::PoolAlreadyExists))
    } else if !params.valid() {
        (pools, Err(Error::InvalidParams))
    } else {
        (pools.insert(asset, LendingPool::opened(asset, params, now)), Ok(()))
    }
}

/// The pools and the result after [`PoolLedger::remove_pool`].
pub open spec fn after_remove_pool(pools: Pools, asset: AssetId) -> (Pools, Result<(), Error>) {
    if !pools.contains_key(asset) {
        (pools, Err(Error::PoolDoesNotExist))
    } else if pools[asset].total_supplied != 0 || pools[asset].total_borrowed != 0 {
        (pools, Err(Error::PoolNotEmpty))
    } else {
        (pools.remove(asset), Ok(()))
    }
}

/// The pools and the result after [`PoolLedger::activate`].
pub open spec fn after_activate(pools: Pools, asset: AssetId) -> (Pools, Result<(), Error>) {
    if !pools.contains_key(asset) {
        (pools, Err(Error::PoolDoesNotExist))
    } else if pools[asset].status == PoolStatus::Active {
        (pools, Err(Error::PoolAlreadyActive))
    } else {
        (pools.insert(asset, with_status(pools[asset], PoolStatus::Active)), Ok(()))
    }
}

/// The pools and the result after [`PoolLedger::deactivate`].
pub open spec fn after_deactivate(pools: Pools, asset: AssetId) -> (Pools, Result<(), Error>) {
    if !pools.contains_key(asset) {
        (pools, Err(Error::PoolDoesNotExist))
    } else if pools[asset].status == PoolStatus::Inactive {
        (pools, Err(Error::PoolAlreadyInactive))
    } else {
        (pools.insert(asset, with_status(pools[asset], PoolStatus::Inactive)), Ok(()))
    }
}

/// The pools and the result after [`PoolLedger::thaw`].
pub open spec fn after_thaw(pools: Pools, asset: AssetId, now: Timestamp) -> (
    Pools,
    Result<(), Error>,
) {
    if !pools.contains_key(asset) {
        (pools, Err(Error::PoolDoesNotExist))
    } else if !pools[asset].frozen {
        (pools, Err(Error::PoolNotFrozen))
    } else {
        (pools.insert(asset, thawed(pools[asset], now)), Ok(()))
    }
}

/// The pools and the result after [`PoolLedger::accrue`].
pub open spec fn after_accrue(pools: Pools, asset: AssetId, now: Timestamp) -> (
    Pools,
    Result<(), Error>,
) {
    on_pool(pools, asset, pools[asset].accrual_outcome(now))
}

/// The pools and the result after [`PoolLedger::update_rate_model`].
pub open spec fn after_update_rate_model(
    pools: Pools,
    asset: AssetId,
    params: RateParams,
    now: Timestamp,
) -> (Pools, Result<(), Error>) {
    on_pool(pools, asset, rate_model_outcome(pools[asset], params, now))
}

/// The pools and the result after [`PoolLedger::update_kink`].
pub open spec fn after_update_kink(pools: Pools, asset: AssetId, kink: i64, now: Timestamp) -> (
    Pools,
    Result<(), Error>,
) {
    after_update_rate_model(
        pools,
        asset,
        RateParams { kink_utilization: kink, ..pools[asset].params },
        now,
    )
}

/// The pools and the result after [`PoolLedger::adjust_supplied`].
pub open spec fn after_adjust_supplied(
    pools: Pools,
    asset: AssetId,
    delta: int,
    now: Timestamp,
) -> (Pools, Result<(), Error>) {
    on_pool(pools, asset, supplied_outcome(pools[asset], delta, now))
}

/// The pools and the result after [`PoolLedger::adjust_borrowed`].
pub open spec fn after_adjust_borrowed(
    pools: Pools,
    asset: AssetId,
    delta: int,
    now: Timestamp,
) -> (Pools, Result<(), Error>) {
    on_pool(pools, asset, borrowed_outcome(pools[asset], delta, now))
}

impl PoolLedger {
    /// Every pool is well formed, hence solvent, and is stored under its own
    /// asset.
    pub open spec fn wf(&self) -> bool {
        pools_wf(self@)
    }

    /// A ledger without pools.
    pub fn new() -> (ledger: PoolLedger)
        ensures
            ledger@ == Map::<AssetId, LendingPool>::empty(),
            ledger.wf(),
    {
        PoolLedger { pools: HashMap::new() }
    }

    /// Whether a pool is registered for `asset`.
    pub fn contains(&self, asset: AssetId) -> (b: bool)
        ensures
            b == self@.contains_key(asset),
    {
        self.pools.contains_key(&asset)
    }

    /// The pool of `asset`, if one is registered.
    pub fn get(&self, asset: AssetId) -> (pool: Option<LendingPool>)
        ensures
            self@.contains_key(asset) ==> pool == Some(self@[asset]),
            !self@.contains_key(asset) ==> pool is None,
    {
        match self.pools.get(&asset) {
            Some(pool) => Some(*pool),
            None => None,
        }
    }

    /// Puts `pool` in the place of whatever is stored under its asset. This is
    /// how a host that keeps the records elsewhere hands one back.
    pub fn put(&mut self, pool: LendingPool)
        requires
            old(self).wf(),
            pool.wf(),
        ensures
            final(self)@ == old(self)@.insert(pool.id, pool),
            final(self).wf(),
    {
        self.pools.insert(pool.id, pool);
    }

    /// Registers a pool for `asset`: nothing supplied, nothing borrowed, both
    /// indices at `1.0`, active, with interest counted from `now`.
    ///
    /// Fails with `PoolAlreadyExists` where the asset has a pool, else with
    /// `InvalidParams` where `params` is not valid.
    pub fn add_pool(&mut self, asset: AssetId, params: RateParams, now: Timestamp) -> (r: Result<
        (),
        Error,
    >)
        requires
            old(self).wf(),
        ensures
            final(self).wf(),
            (final(self)@, r) == after_add_pool(old(self)@, asset, params, now),
    {
        if self.pools.contains_key(&asset) {
            return Err(Error::PoolAlreadyExists);
        }
        match LendingPool::open(asset, params, now) {
            Ok(pool) => {
                self.pools.insert(asset, pool);
                Ok(())
            },
            Err(e) => Err(e),
        }
    }

    /// Removes the pool of `asset`.
    ///
    /// Fails with `PoolDoesNotExist` where the asset has no pool, else with
    /// `PoolNotEmpty` unless nothing is supplied and nothing is borrowed.
    pub fn remove_pool(&mut self, asset: AssetId) -> (r: Result<(), Error>)
        requires
            old(self).wf(),
        ensures
            final(self).wf(),
            (final(self)@, r) == after_remove_pool(old(self)@, asset),
    {
        let pool: LendingPool = match self.get(asset) {
            Some(pool) => pool,
            None => {
                return Err(Error::PoolDoesNotExist);
            },
        };
        if pool.total_supplied != 0 || pool.total_borrowed != 0 {
            return Err(Error::PoolNotEmpty);
        }
        self.pools.remove(&asset);
        Ok(())
    }

    /// Lets the pool of `asset` take new supply and new borrows again.
    ///
    /// Fails with `PoolDoesNotExist` where the asset has no pool, else with
    /// `PoolAlreadyActive` where the pool is active.
    pub fn activate(&mut self, asset: AssetId) -> (r: Result<(), Error>)
        requires
            old(self).wf(),
        ensures
            final(self).wf(),
            (final(self)@, r) == after_activate(old(self)@, asset),
    {
        let mut pool: LendingPool = match self.get(asset) {
            Some(pool) => pool,
            None => {
                return Err(Error::PoolDoesNotExist);
            },
        };
        match pool.status {
            PoolStatus::Active => Err(Error::PoolAlreadyActive),
            PoolStatus::Inactive => {
                pool.status = PoolStatus::Active;
                self.put(pool);
                Ok(())
            },
        }
    }

    /// Stops the pool of `asset` from taking new supply and new borrows.
    /// Withdrawals and repayments go on.
    ///
    /// Fails with `PoolDoesNotExist` where the asset has no pool, else with
    /// `PoolAlreadyInactive` where the pool is inactive.
    pub fn deactivate(&mut self, asset: AssetId) -> (r: Result<(), Error>)
        requires
            old(self).wf(),
        ensures
            final(self).wf(),
            (final(self)@, r) == after_deactivate(old(self)@, asset),
    {
        let mut pool: LendingPool = match self.get(asset) {
            Some(pool) => pool,
            None => {
                return Err(Error::PoolDoesNotExist);
            },
        };
        match pool.status {
            PoolStatus::Inactive => Err(Error::PoolAlreadyInactive),
            PoolStatus::Active => {
                pool.status = PoolStatus::Inactive;
                self.put(pool);
                Ok(())
            },
        }
    }

    /// Thaws the pool of `asset` after an overflow froze it. The periods up
    /// to `now` are left out of its interest.
    ///
    /// Fails with `PoolDoesNotExist` where the asset has no pool, else with
    /// `PoolNotFrozen` where the pool is not frozen.
    pub fn thaw(&mut self, asset: AssetId, now: Timestamp) -> (r: Result<(), Error>)
        requires
            old(self).wf(),
        ensures
            final(self).wf(),
            (final(self)@, r) == after_thaw(old(self)@, asset, now),
    {
        let mut pool: LendingPool = match self.get(asset) {
            Some(pool) => pool,
            None => {
                return Err(Error::PoolDoesNotExist);
            },
        };
        if !pool.frozen {
            return Err(Error::PoolNotFrozen);
        }
        pool.frozen = false;
        if now > pool.last_accrual {
            pool.last_accrual = now;
        }
        self.put(pool);
        Ok(())
    }

    /// Compounds the interest of the pool of `asset` up to `now`.
    ///
    /// Fails with `PoolDoesNotExist` where the asset has no pool, else as
    /// [`LendingPool::accrue`] does.
    pub fn accrue(&mut self, asset: AssetId, now: Timestamp) -> (r: Result<(), Error>)
        requires
            old(self).wf(),
        ensures
            final(self).wf(),
            (final(self)@, r) == after_accrue(old(self)@, asset, now),
    {
        let mut pool: LendingPool = match self.get(asset) {
            Some(pool) => pool,
            None => {
                return Err(Error::PoolDoesNotExist);
            },
        };
        let r = pool.accrue(now);
        self.put(pool);
        r
    }

    /// Replaces the rate curve of the pool of `asset`, after compounding the
    /// interest up to `now` at the old one.
    ///
    /// Fails with `PoolDoesNotExist` where the asset has no pool, else with
    /// `InvalidParams` where `params` is not valid, else as the accrual does.
    pub fn update_rate_model(&mut self, asset: AssetId, params: RateParams, now: Timestamp) -> (r:
        Result<(), Error>)
        requires
            old(self).wf(),
        ensures
            final(self).wf(),
            (final(self)@, r) == after_update_rate_model(old(self)@, asset, params, now),
    {
        let mut pool: LendingPool = match self.get(asset) {
            Some(pool) => pool,
            None => {
                return Err(Error::PoolDoesNotExist);
            },
        };
        if params.validate().is_err() {
            assert(self@ =~= self@.insert(asset, pool));
            return Err(Error::InvalidParams);
        }
        match pool.accrue(now) {
            Ok(()) => {
                pool.params = params;
                self.put(pool);
                Ok(())
            },
            Err(e) => {
                self.put(pool);
                Err(e)
            },
        }
    }

    /// Moves the kink of the pool of `asset`, after compounding the interest
    /// up to `now` at the old curve.
    ///
    /// Fails as [`PoolLedger::update_rate_model`] does for the pool's
    /// parameters with the kink replaced.
    pub fn update_kink(&mut self, asset: AssetId, kink: i64, now: Timestamp) -> (r: Result<
        (),
        Error,
    >)
        requires
            old(self).wf(),
        ensures
            final(self).wf(),
            (final(self)@, r) == after_update_kink(old(self)@, asset, kink, now),
    {
        let pool: LendingPool = match self.get(asset) {
            Some(pool) => pool,
            None => {
                return Err(Error::PoolDoesNotExist);
            },
        };
        let mut params: RateParams = pool.params;
        params.kink_utilization = kink;
        self.update_rate_model(asset, params, now)
    }

    /// Changes the supplied principal of the pool of `asset` by `delta`,
    /// after compounding the interest up to `now`.
    ///
    /// Fails with `PoolDoesNotExist` where the asset has no pool, else as the
    /// accrual does, else with `InsufficientPoolLiquidity` where the pool
    /// would hold less than it has lent out, else with `BalanceOverflow`
    /// where the total cannot be stored.
    pub fn adjust_supplied(&mut self, asset: AssetId, delta: i128, now: Timestamp) -> (r: Result<
        (),
        Error,
    >)
        requires
            old(self).wf(),
        ensures
            final(self).wf(),
            (final(self)@, r) == after_adjust_supplied(old(self)@, asset, delta as int, now),
    {
        let mut pool: LendingPool = match self.get(asset) {
            Some(pool) => pool,
            None => {
                return Err(Error::PoolDoesNotExist);
            },
        };
        match pool.accrue(now) {
            Ok(()) => {},
            Err(e) => {
                self.put(pool);
                return Err(e);
            },
        }
        match pool.adjust_supplied(delta) {
            Ok(()) => {
                self.put(pool);
                Ok(())
            },
            Err(e) => {
                assert(self@ =~= self@.insert(asset, self@[asset]));
                Err(e)
            },
        }
    }

    /// Changes the borrowed principal of the pool of `asset` by `delta`,
    /// after compounding the interest up to `now`.
    ///
    /// Fails with `PoolDoesNotExist` where the asset has no pool, else as the
    /// accrual does, else with `InsufficientPoolLiquidity` where the pool
    /// would have lent out more than it holds, else with `BalanceOverflow`
    /// where the total would fall below zero.
    pub fn adjust_borrowed(&mut self, asset: AssetId, delta: i128, now: Timestamp) -> (r: Result<
        (),
        Error,
    >)
        requires
            old(self).wf(),
        ensures
            final(self).wf(),
            (final(self)@, r) == after_adjust_borrowed(old(self)@, asset, delta as int, now),
    {
        let mut pool: LendingPool = match self.get(asset) {
            Some(pool) => pool,
            None => {
                return Err(Error::PoolDoesNotExist);
            },
        };
        match pool.accrue(now) {
            Ok(()) => {},
            Err(e) => {
                self.put(pool);
                return Err(e);
            },
        }
        match pool.adjust_borrowed(delta) {
            Ok(()) => {
                self.put(pool);
                Ok(())
            },
            Err(e) => {
                assert(self@ =~= self@.insert(asset, self@[asset]));
                Err(e)
            },
        }
    }
}

} // verus!
