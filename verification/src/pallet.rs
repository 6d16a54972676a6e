//! The operations that callers dispatch to.
//!
//! Each operation takes the account that the authentication layer resolved,
//! hands the work to the ledgers, and reports what happened as an event. A
//! failure of a ledger is passed on unchanged. Moving the asset itself is the
//! custody layer's part: it acts on the event.

use frame_support::sp_runtime::traits::AccountIdConversion;
use frame_support::PalletId;
use vstd::prelude::*;
use crate::fixed::SCALE;
use crate::pool::LendingPool;
use crate::pool_ledger::{
    after_activate,
    after_add_pool,
    after_deactivate,
    after_remove_pool,
    after_thaw,
    after_update_kink,
    after_update_rate_model,
    PoolLedger,
    Pools,
};
use crate::position::{supply, Position};
use crate::position_ledger::{
    after_borrow,
    after_claim_rewards,
    after_repay,
    after_supply,
    after_withdraw,
    position_at,
    PositionLedger,
    Positions,
};
use crate::rate_model::{lemma_utilization_is_fraction, RateParams};
use crate::types::{AccountId, AssetId, Balance, Error, Event, Timestamp};

verus! {

/// The lending pallet: the two ledgers, and the identifier from which the
/// pallet's own account is derived.
pub struct Pallet {
    pub pallet_id: [u8; 8],
    pub pools: PoolLedger,
    pub positions: PositionLedger,
}

/// The account that belongs to the pallet with identifier `id`: the eight
/// bytes `"modl"`, `id[0]` .. `id[3]`, read as a little-endian number.
pub open spec fn pallet_account_of(id: Seq<u8>) -> int {
    0x6c64_6f6d + id[0] * 0x1_0000_0000 + id[1] * 0x100_0000_0000 + id[2] * 0x1_0000_0000_0000
        + id[3] * 0x100_0000_0000_0000
}

/// `AccountIdConversion::into_account_truncating` of `sp_runtime`, as
/// `frame_support` hands it on, called on a `frame_support::PalletId` for a
/// 64-bit account. The call encodes the type tag `"modl"` and then the
/// identifier, and decodes the account from the front of those bytes; a
/// 64-bit number is decoded from eight bytes, least significant first. The
/// contract claims that reading, and nothing of it is proved here.
#[verifier::external_body]
fn truncated_account(id: &[u8; 8]) -> (account: AccountId)
    ensures
        account == pallet_account_of(id@),
{
    PalletId(*id).into_account_truncating()
}

/// What an operation reports: `event` where the ledgers succeeded, their
/// error where they did not.
pub open spec fn report(result: Result<(), Error>, event: Event) -> Result<Event, Error> {
    match result {
        Ok(()) => Ok(event),
        Err(e) => Err(e),
    }
}

/// The pools, the positions and the result after
/// [`Pallet::create_lending_pool`]: a pool is added and `balance` supplied to
/// it, or nothing changes.
pub open spec fn after_create(
    pools: Pools,
    positions: Positions,
    who: AccountId,
    asset: AssetId,
    params: RateParams,
    balance: Balance,
    now: Timestamp,
) -> (Pools, Positions, Result<(Event, Event), Error>) {
    let (added, addition) = after_add_pool(pools, asset, params, now);
    let (supplied, held, supply) = after_supply(added, positions, who, asset, balance, now);
    if balance == 0 {
        (pools, positions, Err(Error::ZeroAmount))
    } else if addition is Err {
        (pools, positions, Err(addition->Err_0))
    } else if supply is Err {
        (pools, positions, Err(supply->Err_0))
    } else {
        (
            supplied,
            held,
            Ok((Event::PoolAdded { who, asset }, Event::DepositSupplied { who, asset, balance })),
        )
    }
}

impl Pallet {
    /// Both ledgers are well formed. In particular no pool has lent out more
    /// than it holds.
    pub open spec fn wf(&self) -> bool {
        &&& self.pools.wf()
        &&& self.positions.wf()
    }

    /// A pallet without pools and positions.
    pub fn new(pallet_id: [u8; 8]) -> (pallet: Pallet)
        ensures
            pallet.wf(),
            pallet.pallet_id == pallet_id,
            pallet.pools@ == Pools::empty(),
            pallet.positions@ == Positions::empty(),
    {
        Pallet { pallet_id, pools: PoolLedger::new(), positions: PositionLedger::new() }
    }

    /// The account of the lending pot.
    pub fn account_id(&self) -> (account: AccountId)
        ensures
            account == pallet_account_of(self.pallet_id@),
    {
        truncated_account(&self.pallet_id)
    }

    /// What `who` could take out of the pool of `asset`, at the supply index
    /// that the pool reached with its last accrual.
    ///
    /// Fails with `PoolDoesNotExist` where the asset has no pool, else with
    /// `BalanceOverflow` where the balance is more than can be stored.
    pub fn supply_balance_of(&self, who: AccountId, asset: AssetId) -> (r: Result<Balance, Error>)
        requires
            self.wf(),
        ensures
            !self.pools@.contains_key(asset) ==> r == Err::<Balance, Error>(
                Error::PoolDoesNotExist,
            ),
            self.pools@.contains_key(asset) ==> ({
                let balance = position_at(self.positions@, who, asset).supply_balance_at(
                    self.pools@[asset].supply_index as int,
                );
                &&& balance <= u64::MAX ==> r == Ok::<Balance, Error>(balance as u64)
                &&& balance > u64::MAX ==> r == Err::<Balance, Error>(Error::BalanceOverflow)
            }),
    {
        let pool: LendingPool = match self.pools.get(asset) {
            Some(pool) => pool,
            None => {
                return Err(Error::PoolDoesNotExist);
            },
        };
        match self.positions.position(who, asset).supply_balance(pool.supply_index) {
            Some(balance) => Ok(balance),
            None => Err(Error::BalanceOverflow),
        }
    }

    /// What `who` owes to the pool of `asset`, at the borrow index that the
    /// pool reached with its last accrual.
    ///
    /// Fails with `PoolDoesNotExist` where the asset has no pool, else with
    /// `BalanceOverflow` where the debt is more than can be stored.
    pub fn debt_of(&self, who: AccountId, asset: AssetId) -> (r: Result<Balance, Error>)
        requires
            self.wf(),
        ensures
            !self.pools@.contains_key(asset) ==> r == Err::<Balance, Error>(
                Error::PoolDoesNotExist,
            ),
            self.pools@.contains_key(asset) ==> ({
                let debt = position_at(self.positions@, who, asset).debt_at(
                    self.pools@[asset].borrow_index as int,
                );
                &&& debt <= u64::MAX ==> r == Ok::<Balance, Error>(debt as u64)
                &&& debt > u64::MAX ==> r == Err::<Balance, Error>(Error::BalanceOverflow)
            }),
    {
        let pool: LendingPool = match self.pools.get(asset) {
            Some(pool) => pool,
            None => {
                return Err(Error::PoolDoesNotExist);
            },
        };
        let debt: u128 = self.positions.position(who, asset).debt(pool.borrow_index);
        if debt > u64::MAX as u128 {
            Err(Error::BalanceOverflow)
        } else {
            Ok(debt as u64)
        }
    }

    /// No pool of a well-formed pallet has lent out more than it holds.
    pub proof fn lemma_pools_are_solvent(&self, asset: AssetId)
        requires
            self.wf(),
            self.pools@.contains_key(asset),
        ensures
            self.pools@[asset].total_borrowed <= self.pools@[asset].total_supplied,
            0 <= self.pools@[asset].utilization() <= SCALE,
    {
        lemma_utilization_is_fraction(
            self.pools@[asset].total_borrowed as int,
            self.pools@[asset].total_supplied as int,
        );
    }

    /// Adds a pool for `asset` and supplies `balance` to it for `who`.
    ///
    /// Fails with `ZeroAmount` for a balance of zero, else as
    /// [`PoolLedger::add_pool`] does, else as [`PositionLedger::supply`]
    /// does. Where it fails nothing changes.
    pub fn create_lending_pool(
        &mut self,
        who: AccountId,
        asset: AssetId,
        params: RateParams,
        balance: Balance,
        now: Timestamp,
    ) -> (r: Result<(Event, Event), Error>)
        requires
            old(self).wf(),
        ensures
            final(self).wf(),
            final(self).pallet_id == old(self).pallet_id,
            (final(self).pools@, final(self).positions@, r) == after_create(
                old(self).pools@,
                old(self).positions@,
                who,
                asset,
                params,
                balance,
                now,
            ),
    {
        if balance == 0 {
            return Err(Error::ZeroAmount);
        }
        if self.pools.contains(asset) {
            return Err(Error::PoolAlreadyExists);
        }
        let mut pool: LendingPool = match LendingPool::open(asset, params, now) {
            Ok(pool) => pool,
            Err(e) => {
                return Err(e);
            },
        };
        let mut position: Position = self.positions.position(who, asset);
        match supply(&mut pool, &mut position, balance, now) {
            Ok(()) => {},
            Err(e) => {
                return Err(e);
            },
        }
        self.pools.put(pool);
        self.positions.put(who, asset, position);
        proof {
            let added = old(self).pools@.insert(asset, LendingPool::opened(asset, params, now));
            assert(self.pools@ =~= added.insert(asset, pool));
        }
        Ok((Event::PoolAdded { who, asset }, Event::DepositSupplied { who, asset, balance }))
    }

    /// Adds a pool for `asset`.
    pub fn add_lending_pool(
        &mut self,
        who: AccountId,
        asset: AssetId,
        params: RateParams,
        now: Timestamp,
    ) -> (r: Result<Event, Error>)
        requires
            old(self).wf(),
        ensures
            final(self).wf(),
            final(self).pallet_id == old(self).pallet_id,
            final(self).positions@ == old(self).positions@,
            final(self).pools@ == after_add_pool(old(self).pools@, asset, params, now).0,
            r == report(
                after_add_pool(old(self).pools@, asset, params, now).1,
                Event::PoolAdded { who, asset },
            ),
    {
        match self.pools.add_pool(asset, params, now) {
            Ok(()) => Ok(Event::PoolAdded { who, asset }),
            Err(e) => Err(e),
        }
    }

    /// Removes the pool of `asset`.
    pub fn remove_lending_pool(&mut self, who: AccountId, asset: AssetId) -> (r: Result<
        Event,
        Error,
    >)
        requires
            old(self).wf(),
        ensures
            final(self).wf(),
            final(self).pallet_id == old(self).pallet_id,
            final(self).positions@ == old(self).positions@,
            final(self).pools@ == after_remove_pool(old(self).pools@, asset).0,
            r == report(
                after_remove_pool(old(self).pools@, asset).1,
                Event::PoolRemoved { who, asset },
            ),
    {
        match self.pools.remove_pool(asset) {
            Ok(()) => Ok(Event::PoolRemoved { who, asset }),
            Err(e) => Err(e),
        }
    }

    /// Lets the pool of `asset` take new supply and new borrows again.
    pub fn activate_lending_pool(&mut self, who: AccountId, asset: AssetId) -> (r: Result<
        Event,
        Error,
    >)
        requires
            old(self).wf(),
        ensures
            final(self).wf(),
            final(self).pallet_id == old(self).pallet_id,
            final(self).positions@ == old(self).positions@,
            final(self).pools@ == after_activate(old(self).pools@, asset).0,
            r == report(
                after_activate(old(self).pools@, asset).1,
                Event::PoolActivated { who, asset },
            ),
    {
        match self.pools.activate(asset) {
            Ok(()) => Ok(Event::PoolActivated { who, asset }),
            Err(e) => Err(e),
        }
    }

    /// Stops the pool of `asset` from taking new supply and new borrows.
    pub fn deactivate_lending_pool(&mut self, who: AccountId, asset: AssetId) -> (r: Result<
        Event,
        Error,
    >)
        requires
            old(self).wf(),
        ensures
            final(self).wf(),
            final(self).pallet_id == old(self).pallet_id,
            final(self).positions@ == old(self).positions@,
            final(self).pools@ == after_deactivate(old(self).pools@, asset).0,
            r == report(
                after_deactivate(old(self).pools@, asset).1,
                Event::PoolDeactivated { who, asset },
            ),
    {
        match self.pools.deactivate(asset) {
            Ok(()) => Ok(Event::PoolDeactivated { who, asset }),
            Err(e) => Err(e),
        }
    }

    /// Thaws the pool of `asset` after an overflow froze it.
    pub fn thaw_lending_pool(&mut self, who: AccountId, asset: AssetId, now: Timestamp) -> (r:
        Result<Event, Error>)
        requires
            old(self).wf(),
        ensures
            final(self).wf(),
            final(self).pallet_id == old(self).pallet_id,
            final(self).positions@ == old(self).positions@,
            final(self).pools@ == after_thaw(old(self).pools@, asset, now).0,
            r == report(
                after_thaw(old(self).pools@, asset, now).1,
                Event::PoolThawed { who, asset },
            ),
    {
        match self.pools.thaw(asset, now) {
            Ok(()) => Ok(Event::PoolThawed { who, asset }),
            Err(e) => Err(e),
        }
    }

    /// Replaces the rate curve of the pool of `asset`.
    pub fn update_pool_rate_model(
        &mut self,
        who: AccountId,
        asset: AssetId,
        params: RateParams,
        now: Timestamp,
    ) -> (r: Result<Event, Error>)
        requires
            old(self).wf(),
        ensures
            final(self).wf(),
            final(self).pallet_id == old(self).pallet_id,
            final(self).positions@ == old(self).positions@,
            final(self).pools@ == after_update_rate_model(
                old(self).pools@,
                asset,
                params,
                now,
            ).0,
            r == report(
                after_update_rate_model(old(self).pools@, asset, params, now).1,
                Event::RateModelUpdated { who, asset },
            ),
    {
        match self.pools.update_rate_model(asset, params, now) {
            Ok(()) => Ok(Event::RateModelUpdated { who, asset }),
            Err(e) => Err(e),
        }
    }

    /// Moves the kink of the pool of `asset`.
    pub fn update_pool_kink(
        &mut self,
        who: AccountId,
        asset: AssetId,
        kink: i64,
        now: Timestamp,
    ) -> (r: Result<Event, Error>)
        requires
            old(self).wf(),
        ensures
            final(self).wf(),
            final(self).pallet_id == old(self).pallet_id,
            final(self).positions@ == old(self).positions@,
            final(self).pools@ == after_update_kink(old(self).pools@, asset, kink, now).0,
            r == report(
                after_update_kink(old(self).pools@, asset, kink, now).1,
                Event::KinkUpdated { who, asset },
            ),
    {
        match self.pools.update_kink(asset, kink, now) {
            Ok(()) => Ok(Event::KinkUpdated { who, asset }),
            Err(e) => Err(e),
        }
    }

    /// Supplies `balance` of `asset` for `who`.
    pub fn supply(
        &mut self,
        who: AccountId,
        asset: AssetId,
        balance: Balance,
        now: Timestamp,
    ) -> (r: Result<Event, Error>)
        requires
            old(self).wf(),
        ensures
            final(self).wf(),
            final(self).pallet_id == old(self).pallet_id,
            ({
                let (pools, positions, result) = after_supply(
                    old(self).pools@,
                    old(self).positions@,
                    who,
                    asset,
                    balance,
                    now,
                );
                &&& final(self).pools@ == pools
                &&& final(self).positions@ == positions
                &&& r == report(result, Event::DepositSupplied { who, asset, balance })
            }),
    {
        match self.positions.supply(&mut self.pools, who, asset, balance, now) {
            Ok(()) => Ok(Event::DepositSupplied { who, asset, balance }),
            Err(e) => Err(e),
        }
    }

    /// Withdraws `balance` of `asset` for `who`.
    pub fn withdraw(
        &mut self,
        who: AccountId,
        asset: AssetId,
        balance: Balance,
        now: Timestamp,
    ) -> (r: Result<Event, Error>)
        requires
            old(self).wf(),
        ensures
            final(self).wf(),
            final(self).pallet_id == old(self).pallet_id,
            ({
                let (pools, positions, result) = after_withdraw(
                    old(self).pools@,
                    old(self).positions@,
                    who,
                    asset,
                    balance,
                    now,
                );
                &&& final(self).pools@ == pools
                &&& final(self).positions@ == positions
                &&& r == report(result, Event::DepositWithdrawn { who, asset, balance })
            }),
    {
        match self.positions.withdraw(&mut self.pools, who, asset, balance, now) {
            Ok(()) => Ok(Event::DepositWithdrawn { who, asset, balance }),
            Err(e) => Err(e),
        }
    }

    /// Borrows `balance` of `asset` for `who`.
    pub fn borrow(
        &mut self,
        who: AccountId,
        asset: AssetId,
        balance: Balance,
        now: Timestamp,
    ) -> (r: Result<Event, Error>)
        requires
            old(self).wf(),
        ensures
            final(self).wf(),
            final(self).pallet_id == old(self).pallet_id,
            ({
                let (pools, positions, result) = after_borrow(
                    old(self).pools@,
                    old(self).positions@,
                    who,
                    asset,
                    balance,
                    now,
                );
                &&& final(self).pools@ == pools
                &&& final(self).positions@ == positions
                &&& r == report(result, Event::DepositBorrowed { who, asset, balance })
            }),
    {
        match self.positions.borrow(&mut self.pools, who, asset, balance, now) {
            Ok(()) => Ok(Event::DepositBorrowed { who, asset, balance }),
            Err(e) => Err(e),
        }
    }

    /// Repays `balance` of `asset` for `who`.
    pub fn repay(
        &mut self,
        who: AccountId,
        asset: AssetId,
        balance: Balance,
        now: Timestamp,
    ) -> (r: Result<Event, Error>)
        requires
            old(self).wf(),
        ensures
            final(self).wf(),
            final(self).pallet_id == old(self).pallet_id,
            ({
                let (pools, positions, result) = after_repay(
                    old(self).pools@,
                    old(self).positions@,
                    who,
                    asset,
                    balance,
                    now,
                );
                &&& final(self).pools@ == pools
                &&& final(self).positions@ == positions
                &&& r == report(result, Event::DepositRepaid { who, asset, balance })
            }),
    {
        match self.positions.repay(&mut self.pools, who, asset, balance, now) {
            Ok(()) => Ok(Event::DepositRepaid { who, asset, balance }),
            Err(e) => Err(e),
        }
    }

    /// Hands out the rewards that `who` may claim in the pool of `asset`.
    pub fn claim_rewards(&mut self, who: AccountId, asset: AssetId) -> (r: Result<Event, Error>)
        requires
            old(self).wf(),
        ensures
            final(self).wf(),
            final(self).pallet_id == old(self).pallet_id,
            final(self).pools@ == old(self).pools@,
            final(self).positions@ == after_claim_rewards(old(self).positions@, who, asset).0,
            r == match after_claim_rewards(old(self).positions@, who, asset).1 {
                Ok(balance) => Ok::<Event, Error>(Event::RewardsClaimed { who, asset, balance }),
                Err(e) => Err::<Event, Error>(e),
            },
    {
        match self.positions.claim_rewards(who, asset) {
            Ok(balance) => Ok(Event::RewardsClaimed { who, asset, balance }),
            Err(e) => Err(e),
        }
    }
}

} // verus!
