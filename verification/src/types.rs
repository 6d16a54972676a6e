//! Identifiers, amounts, failures and events shared by every module.

use vstd::prelude::*;

verus! {

/// An account, as the authentication layer resolved it.
pub type AccountId = u64;

/// The asset of a pool, and the pool's key.
pub type AssetId = u32;

/// A whole number of asset units.
pub type Balance = u64;

/// A point in time, counted in accrual periods.
pub type Timestamp = u64;

/// Why an operation was turned down.
///
/// An operation that fails leaves the ledger exactly as it was, with one
/// exception: [`Error::ArithmeticOverflow`] comes with the pool frozen.
#[derive(Clone, Copy, Debug, PartialEq, Eq, Structural)]
pub enum Error {
    /// No pool is registered for the asset.
    PoolDoesNotExist,
    /// A pool is already registered for the asset.
    PoolAlreadyExists,
    /// The pool is already active.
    PoolAlreadyActive,
    /// The pool is already inactive.
    PoolAlreadyInactive,
    /// The pool still has supplied or borrowed principal.
    PoolNotEmpty,
    /// The pool does not take new supply or borrows.
    PoolInactive,
    /// A rate parameter is negative, or a fraction lies outside `[0, 1]`.
    InvalidParams,
    /// The amount of the request is zero.
    ZeroAmount,
    /// The account's supply balance is smaller than the amount.
    InsufficientBalance,
    /// The pool cannot part with the amount and stay solvent.
    InsufficientPoolLiquidity,
    /// The repayment is larger than the account's debt.
    RepayExceedsDebt,
    /// The account has no rewards to claim.
    NothingToClaim,
    /// The custody layer could not move the asset. The host reports this; no
    /// operation of the ledger does.
    CustodyFailure,
    /// Compounding pushed an index or the reserves past what can be stored.
    /// The pool is frozen from this moment on.
    ArithmeticOverflow,
    /// The pool was frozen by an earlier overflow and has not been thawed.
    PoolFrozen,
    /// The pool is not frozen, so there is nothing to thaw.
    PoolNotFrozen,
    /// The request would move a balance outside of what can be stored.
    BalanceOverflow,
}

/// What a successful operation reports.
#[derive(Clone, Copy, Debug, PartialEq, Eq, Structural)]
pub enum Event {
    DepositSupplied { who: AccountId, asset: AssetId, balance: Balance },
    DepositWithdrawn { who: AccountId, asset: AssetId, balance: Balance },
    DepositBorrowed { who: AccountId, asset: AssetId, balance: Balance },
    DepositRepaid { who: AccountId, asset: AssetId, balance: Balance },
    RewardsClaimed { who: AccountId, asset: AssetId, balance: Balance },
    PoolAdded { who: AccountId, asset: AssetId },
    PoolRemoved { who: AccountId, asset: AssetId },
    PoolActivated { who: AccountId, asset: AssetId },
    PoolDeactivated { who: AccountId, asset: AssetId },
    PoolThawed { who: AccountId, asset: AssetId },
    RateModelUpdated { who: AccountId, asset: AssetId },
    KinkUpdated { who: AccountId, asset: AssetId },
}

} // verus!
