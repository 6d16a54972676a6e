//! The store of positions, keyed by account and asset.
//!
//! A position comes into being with the first operation that leaves the
//! account with something in the pool, and goes when nothing is left of it.
//! A position refers to its pool by the asset alone; where an operation needs
//! the pool's state it looks the pool up in the pool ledger.

use std::collections::HashMap;
use vstd::prelude::*;
use crate::pool::LendingPool;
use crate::pool_ledger::{PoolLedger, Pools};
use crate::position::{
    borrow,
    borrow_outcome,
    repay,
    repay_outcome,
    supply,
    supply_outcome,
    withdraw,
    withdraw_outcome,
    Position,
};
use crate::types::{AccountId, AssetId, Balance, Error, Timestamp};

verus! {

broadcast use vstd::std_specs::hash::group_hash_axioms;

/// Owns every position record.
pub struct PositionLedger {
    positions: HashMap<u128, Position>,
}

/// The key under which the position of `account` in the pool of `asset` is
/// stored: the account in the upper bits, the asset in the lower 32.
pub closed spec fn slot(account: AccountId, asset: AssetId) -> u128 {
    (account * 0x1_0000_0000 + asset) as u128
}

/// The type of a position ledger's view.
pub type Positions = Map<(AccountId, AssetId), Position>;

impl View for PositionLedger {
    type V = Positions;

    closed spec fn view(&self) -> Positions {
        Map::new(
            |k: (AccountId, AssetId)| self.positions@.contains_key(slot(k.0, k.1)),
            |k: (AccountId, AssetId)| self.positions@[slot(k.0, k.1)],
        )
    }
}

/// What `account` holds in the pool of `asset`: the stored position, or the
/// vacant one.
pub open spec fn position_at(positions: Positions, account: AccountId, asset: AssetId) -> Position {
    if positions.contains_key((account, asset)) {
        positions[(account, asset)]
    } else {
        Position::vacant()
    }
}

/// The positions with that of `account` in the pool of `asset` replaced by
/// `position`, or taken away where nothing is left of it.
pub open spec fn with_position(
    positions: Positions,
    account: AccountId,
    asset: AssetId,
    position: Position,
) -> Positions {
    if position.is_spent() {
        positions.remove((account, asset))
    } else {
        positions.insert((account, asset), position)
    }
}

/// The pools, the positions and the result after a transition of `account`
/// in the pool of `asset` that leaves the two records and the result of
/// `outcome`. An amount of zero is turned down first, then an asset without a
/// pool; a transition that fails leaves the positions as they were.
pub open spec fn transition(
    pools: Pools,
    positions: Positions,
    account: AccountId,
    asset: AssetId,
    amount: Balance,
    outcome: (LendingPool, Position, Result<(), Error>),
) -> (Pools, Positions, Result<(), Error>) {
    if amount == 0 {
        (pools, positions, Err(Error::ZeroAmount))
    } else if !pools.contains_key(asset) {
        (pools, positions, Err(Error::PoolDoesNotExist))
    } else if outcome.2 is Err {
        (pools.insert(asset, outcome.0), positions, outcome.2)
    } else {
        (
            pools.insert(asset, outcome.0),
            with_position(positions, account, asset, outcome.1),
            outcome.2,
        )
    }
}

/// The pools, the positions and the result after [`PositionLedger::supply`].
pub open spec fn after_supply(
    pools: Pools,
    positions: Positions,
    account: AccountId,
    asset: AssetId,
    amount: Balance,
    now: Timestamp,
) -> (Pools, Positions, Result<(), Error>) {
    transition(
        pools,
        positions,
        account,
        asset,
        amount,
        supply_outcome(pools[asset], position_at(positions, account, asset), amount, now),
    )
}

/// The pools, the positions and the result after [`PositionLedger::withdraw`].
pub open spec fn after_withdraw(
    pools: Pools,
    positions: Positions,
    account: AccountId,
    asset: AssetId,
    amount: Balance,
    now: Timestamp,
) -> (Pools, Positions, Result<(), Error>) {
    transition(
        pools,
        positions,
        account,
        asset,
        amount,
        withdraw_outcome(pools[asset], position_at(positions, account, asset), amount, now),
    )
}

/// The pools, the positions and the result after [`PositionLedger::borrow`].
pub open spec fn after_borrow(
    pools: Pools,
    positions: Positions,
    account: AccountId,
    asset: AssetId,
    amount: Balance,
    now: Timestamp,
) -> (Pools, Positions, Result<(), Error>) {
    transition(
        pools,
        positions,
        account,
        asset,
        amount,
        borrow_outcome(pools[asset], position_at(positions, account, asset), amount, now),
    )
}

/// The pools, the positions and the result after [`PositionLedger::repay`].
pub open spec fn after_repay(
    pools: Pools,
    positions: Positions,
    account: AccountId,
    asset: AssetId,
    amount: Balance,
    now: Timestamp,
) -> (Pools, Positions, Result<(), Error>) {
    transition(
        pools,
        positions,
        account,
        asset,
        amount,
        repay_outcome(pools[asset], position_at(positions, account, asset), amount, now),
    )
}

/// The positions and the result after [`PositionLedger::credit_rewards`].
pub open spec fn after_credit_rewards(
    positions: Positions,
    account: AccountId,
    asset: AssetId,
    amount: Balance,
) -> (Positions, Result<(), Error>) {
    match position_at(positions, account, asset).rewards_credited(amount) {
        Ok(position) => (with_position(positions, account, asset, position), Ok(())),
        Err(e) => (positions, Err(e)),
    }
}

/// The positions and the result after [`PositionLedger::claim_rewards`].
pub open spec fn after_claim_rewards(positions: Positions, account: AccountId, asset: AssetId) -> (
    Positions,
    Result<Balance, Error>,
) {
    let position = position_at(positions, account, asset);
    if position.claimable_rewards == 0 {
        (positions, Err(Error::NothingToClaim))
    } else {
        (
            with_position(
                positions,
                account,
                asset,
                Position { claimable_rewards: 0, ..position },
            ),
            Ok(position.claimable_rewards),
        )
    }
}

/// Every position is well formed.
pub open spec fn positions_wf(positions: Positions) -> bool {
    forall|k: (AccountId, AssetId)| #[trigger] positions.contains_key(k) ==> positions[k].wf()
}

impl PositionLedger {
    /// Every position is well formed.
    pub open spec fn wf(&self) -> bool {
        positions_wf(self@)
    }

    /// A ledger without positions.
    pub fn new() -> (ledger: PositionLedger)
        ensures
            ledger@ == Positions::empty(),
            ledger.wf(),
    {
        let ledger = PositionLedger { positions: HashMap::new() };
        assert(ledger@ =~= Positions::empty());
        ledger
    }

    fn key(account: AccountId, asset: AssetId) -> (k: u128)
        ensures
            k == slot(account, asset),
    {
        (account as u128) * 0x1_0000_0000 + (asset as u128)
    }

    /// The stored position of `account` in the pool of `asset`, if there is
    /// one.
    pub fn get(&self, account: AccountId, asset: AssetId) -> (position: Option<Position>)
        ensures
            self@.contains_key((account, asset)) ==> position == Some(self@[(account, asset)]),
            !self@.contains_key((account, asset)) ==> position is None,
    {
        let k: u128 = Self::key(account, asset);
        match self.positions.get(&k) {
            Some(position) => Some(*position),
            None => None,
        }
    }

    /// What `account` holds in the pool of `asset`.
    pub fn position(&self, account: AccountId, asset: AssetId) -> (position: Position)
        requires
            self.wf(),
        ensures
            position == position_at(self@, account, asset),
            position.wf(),
    {
        match self.get(account, asset) {
            Some(position) => position,
            None => Position::new(),
        }
    }

    /// Stores `position` for `account` in the pool of `asset`, or drops the
    /// record where nothing is left of the position. This is how a host that
    /// keeps the records elsewhere hands one back.
    pub fn put(&mut self, account: AccountId, asset: AssetId, position: Position)
        requires
            old(self).wf(),
            position.wf(),
        ensures
            final(self)@ == with_position(old(self)@, account, asset, position),
            final(self).wf(),
    {
        let k: u128 = Self::key(account, asset);
        if position.spent() {
            self.positions.remove(&k);
        } else {
            self.positions.insert(k, position);
        }
        assert(forall|a: AccountId, s: AssetId| slot(a, s) == k ==> a == account && s == asset);
        assert(self@ =~= with_position(old(self)@, account, asset, position));
    }

    /// Supplies `amount` of `asset` for `account`.
    ///
    /// Fails with `ZeroAmount` for an amount of zero, else with
    /// `PoolDoesNotExist` where the asset has no pool, else as
    /// [`supply`](crate::position::supply) does on the pool and the account's
    /// position.
    pub fn supply(
        &mut self,
        pools: &mut PoolLedger,
        account: AccountId,
        asset: AssetId,
        amount: Balance,
        now: Timestamp,
    ) -> (r: Result<(), Error>)
        requires
            old(self).wf(),
            old(pools).wf(),
        ensures
            final(self).wf(),
            final(pools).wf(),
            (final(pools)@, final(self)@, r) == after_supply(
                old(pools)@,
                old(self)@,
                account,
                asset,
                amount,
                now,
            ),
    {
        if amount == 0 {
            return Err(Error::ZeroAmount);
        }
        let mut pool: LendingPool = match pools.get(asset) {
            Some(pool) => pool,
            None => {
                return Err(Error::PoolDoesNotExist);
            },
        };
        let mut position: Position = self.position(account, asset);
        let r = supply(&mut pool, &mut position, amount, now);
        pools.put(pool);
        if r.is_ok() {
            self.put(account, asset, position);
        }
        r
    }

    /// Withdraws `amount` of `asset` for `account`.
    ///
    /// Fails with `ZeroAmount` for an amount of zero, else with
    /// `PoolDoesNotExist` where the asset has no pool, else as
    /// [`withdraw`](crate::position::withdraw) does on the pool and the
    /// account's position.
    pub fn withdraw(
        &mut self,
        pools: &mut PoolLedger,
        account: AccountId,
        asset: AssetId,
        amount: Balance,
        now: Timestamp,
    ) -> (r: Result<(), Error>)
        requires
            old(self).wf(),
            old(pools).wf(),
        ensures
            final(self).wf(),
            final(pools).wf(),
            (final(pools)@, final(self)@, r) == after_withdraw(
                old(pools)@,
                old(self)@,
                account,
                asset,
                amount,
                now,
            ),
    {
        if amount == 0 {
            return Err(Error::ZeroAmount);
        }
        let mut pool: LendingPool = match pools.get(asset) {
            Some(pool) => pool,
            None => {
                return Err(Error::PoolDoesNotExist);
            },
        };
        let mut position: Position = self.position(account, asset);
        let r = withdraw(&mut pool, &mut position, amount, now);
        pools.put(pool);
        if r.is_ok() {
            self.put(account, asset, position);
        }
        r
    }

    /// Borrows `amount` of `asset` for `account`.
    ///
    /// Fails with `ZeroAmount` for an amount of zero, else with
    /// `PoolDoesNotExist` where the asset has no pool, else as
    /// [`borrow`](crate::position::borrow) does on the pool and the account's
    /// position.
    pub fn borrow(
        &mut self,
        pools: &mut PoolLedger,
        account: AccountId,
        asset: AssetId,
        amount: Balance,
        now: Timestamp,
    ) -> (r: Result<(), Error>)
        requires
            old(self).wf(),
            old(pools).wf(),
        ensures
            final(self).wf(),
            final(pools).wf(),
            (final(pools)@, final(self)@, r) == after_borrow(
                old(pools)@,
                old(self)@,
                account,
                asset,
                amount,
                now,
            ),
    {
        if amount == 0 {
            return Err(Error::ZeroAmount);
        }
        let mut pool: LendingPool = match pools.get(asset) {
            Some(pool) => pool,
            None => {
                return Err(Error::PoolDoesNotExist);
            },
        };
        let mut position: Position = self.position(account, asset);
        let r = borrow(&mut pool, &mut position, amount, now);
        pools.put(pool);
        if r.is_ok() {
            self.put(account, asset, position);
        }
        r
    }

    /// Repays `amount` of `asset` for `account`.
    ///
    /// Fails with `ZeroAmount` for an amount of zero, else with
    /// `PoolDoesNotExist` where the asset has no pool, else as
    /// [`repay`](crate::position::repay) does on the pool and the account's
    /// position.
    pub fn repay(
        &mut self,
        pools: &mut PoolLedger,
        account: AccountId,
        asset: AssetId,
        amount: Balance,
        now: Timestamp,
    ) -> (r: Result<(), Error>)
        requires
            old(self).wf(),
            old(pools).wf(),
        ensures
            final(self).wf(),
            final(pools).wf(),
            (final(pools)@, final(self)@, r) == after_repay(
                old(pools)@,
                old(self)@,
                account,
                asset,
                amount,
                now,
            ),
    {
        if amount == 0 {
            return Err(Error::ZeroAmount);
        }
        let mut pool: LendingPool = match pools.get(asset) {
            Some(pool) => pool,
            None => {
                return Err(Error::PoolDoesNotExist);
            },
        };
        let mut position: Position = self.position(account, asset);
        let r = repay(&mut pool, &mut position, amount, now);
        pools.put(pool);
        if r.is_ok() {
            self.put(account, asset, position);
        }
        r
    }

    /// Adds `amount` to the rewards that `account` may claim in the pool of
    /// `asset`. This is where the reward mechanism reports what it has worked
    /// out; how it does so is its own business.
    ///
    /// Fails with `BalanceOverflow` exactly when the counter cannot hold the
    /// sum.
    pub fn credit_rewards(&mut self, account: AccountId, asset: AssetId, amount: Balance) -> (r:
        Result<(), Error>)
        requires
            old(self).wf(),
        ensures
            final(self).wf(),
            (final(self)@, r) == after_credit_rewards(old(self)@, account, asset, amount),
    {
        let mut position: Position = self.position(account, asset);
        match position.credit_rewards(amount) {
            Ok(()) => {
                self.put(account, asset, position);
                Ok(())
            },
            Err(e) => Err(e),
        }
    }

    /// Hands out the rewards that `account` may claim in the pool of `asset`
    /// and sets the counter back to zero.
    ///
    /// Fails with `NothingToClaim` exactly when there is nothing to claim.
    pub fn claim_rewards(&mut self, account: AccountId, asset: AssetId) -> (r: Result<
        Balance,
        Error,
    >)
        requires
            old(self).wf(),
        ensures
            final(self).wf(),
            (final(self)@, r) == after_claim_rewards(old(self)@, account, asset),
    {
        let mut position: Position = self.position(account, asset);
        match position.claim_rewards() {
            Ok(amount) => {
                self.put(account, asset, position);
                Ok(amount)
            },
            Err(e) => Err(e),
        }
    }
}

} // verus!
