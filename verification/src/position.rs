//! The record of one account in one pool, and the four transitions that
//! change what the account has supplied or borrowed.
//!
//! Supply is held as shares: `amount / supply_index` at the time of the
//! deposit, kept with nine further decimal places so that a deposit can be
//! taken out again short of at most one unit. Debt is held as a principal
//! together with the borrow index at which it was last brought up to date.
//!
//! Each transition first compounds the pool's interest up to the given time
//! and then works on the pool and the position together. It either changes
//! both or, when it fails, neither; the one exception is an overflow during
//! compounding, which freezes the pool.

use vstd::prelude::*;
use crate::fixed::{
    lemma_div_bounds,
    lemma_div_monotone,
    lemma_div_nonneg,
    lemma_mul_monotone,
    MAX_INDEX,
    SCALE,
    SHARE_SCALE,
};
use crate::accrual::{lemma_accrual_keeps_wf, lemma_accrue_twice};
use crate::pool::{LendingPool, PoolStatus};
use crate::types::{Balance, Error, Timestamp};

verus! {

/// What one account holds in one pool.
#[derive(Clone, Copy, Debug, PartialEq, Eq, Structural)]
pub struct Position {
    /// The account's claim on the pool, in raw shares.
    pub supply_shares: u128,
    /// The account's debt as of `borrow_index_snapshot`.
    pub borrow_principal: Balance,
    /// The pool's borrow index when the debt was last brought up to date.
    pub borrow_index_snapshot: u64,
    /// The rewards that the account may claim.
    pub claimable_rewards: Balance,
}

/// The raw shares that `amount` buys at `index`, rounded down.
pub open spec fn shares_for(amount: int, index: int) -> int {
    amount * SHARE_SCALE / index
}

/// The raw shares that taking `amount` out of `shares` costs at `index`:
/// the shares that `amount` is worth, rounded up; and every share, where
/// `amount` is the whole balance.
pub open spec fn shares_to_burn(shares: int, amount: int, index: int) -> int {
    if amount == balance_of(shares, index) {
        shares
    } else {
        (amount * SHARE_SCALE + index - 1) / index
    }
}

/// The balance that `shares` raw shares are worth at `index`, rounded down.
pub open spec fn balance_of(shares: int, index: int) -> int {
    shares * index / (SHARE_SCALE as int)
}

impl Position {
    /// The snapshot is an index that a pool can have.
    pub open spec fn wf(&self) -> bool {
        SCALE <= self.borrow_index_snapshot <= MAX_INDEX
    }

    /// The position of an account that has not dealt with the pool.
    pub open spec fn vacant() -> Position {
        Position {
            supply_shares: 0,
            borrow_principal: 0,
            borrow_index_snapshot: SCALE,
            claimable_rewards: 0,
        }
    }

    /// What the account could take out at `supply_index`.
    pub open spec fn supply_balance_at(&self, supply_index: int) -> int {
        balance_of(self.supply_shares as int, supply_index)
    }

    /// What the account owes at `borrow_index`.
    pub open spec fn debt_at(&self, borrow_index: int) -> int {
        self.borrow_principal * borrow_index / (self.borrow_index_snapshot as int)
    }

    /// Nothing is left of the position: no share, no debt, no rewards to
    /// claim.
    pub open spec fn is_spent(&self) -> bool {
        &&& self.supply_shares == 0
        &&& self.borrow_principal == 0
        &&& self.claimable_rewards == 0
    }

    /// The position of an account that has not dealt with the pool.
    pub fn new() -> (p: Position)
        ensures
            p == Self::vacant(),
            p.wf(),
    {
        Position {
            supply_shares: 0,
            borrow_principal: 0,
            borrow_index_snapshot: SCALE,
            claimable_rewards: 0,
        }
    }

    /// Whether the record satisfies [`Position::wf`].
    pub fn is_wf(&self) -> (b: bool)
        ensures
            b == self.wf(),
    {
        SCALE <= self.borrow_index_snapshot && self.borrow_index_snapshot <= MAX_INDEX
    }

    /// What the account could take out at `supply_index`, or `None` where
    /// that is more than a balance can hold.
    pub fn supply_balance(&self, supply_index: u64) -> (b: Option<Balance>)
        ensures
            self.supply_balance_at(supply_index as int) <= u64::MAX ==> b == Some(
                self.supply_balance_at(supply_index as int) as u64,
            ),
            self.supply_balance_at(supply_index as int) > u64::MAX ==> b is None,
    {
        proof {
            lemma_mul_monotone(0, self.supply_shares as int, 0, supply_index as int);
            lemma_div_nonneg(self.supply_shares * supply_index, SHARE_SCALE as int);
        }
        match self.supply_shares.checked_mul(supply_index as u128) {
            Some(product) => {
                let wide: u128 = product / SHARE_SCALE;
                if wide > u64::MAX as u128 {
                    None
                } else {
                    Some(wide as u64)
                }
            },
            None => {
                proof {
                    lemma_div_monotone(
                        u128::MAX as int,
                        self.supply_shares * supply_index,
                        SHARE_SCALE as int,
                    );
                    assert(u128::MAX as int / 1_000_000_000_000_000_000 > u64::MAX);
                }
                None
            },
        }
    }

    /// What the account owes at `borrow_index`.
    pub fn debt(&self, borrow_index: u64) -> (d: u128)
        requires
            self.wf(),
        ensures
            d == self.debt_at(borrow_index as int),
    {
        proof {
            lemma_mul_monotone(
                self.borrow_principal as int,
                u64::MAX as int,
                borrow_index as int,
                u64::MAX as int,
            );
            lemma_div_nonneg(
                self.borrow_principal * borrow_index,
                self.borrow_index_snapshot as int,
            );
        }
        (self.borrow_principal as u128) * (borrow_index as u128) / (
        self.borrow_index_snapshot as u128)
    }

    /// Whether nothing is left of the position.
    pub fn spent(&self) -> (b: bool)
        ensures
            b == self.is_spent(),
    {
        self.supply_shares == 0 && self.borrow_principal == 0 && self.claimable_rewards == 0
    }

    /// The position with `amount` more rewards to claim, or `BalanceOverflow`
    /// where the counter cannot hold them.
    pub open spec fn rewards_credited(&self, amount: Balance) -> Result<Position, Error> {
        if self.claimable_rewards + amount > u64::MAX {
            Err(Error::BalanceOverflow)
        } else {
            Ok(Position { claimable_rewards: (self.claimable_rewards + amount) as u64, ..*self })
        }
    }

    /// Adds `amount` to the rewards that the account may claim.
    pub fn credit_rewards(&mut self, amount: Balance) -> (r: Result<(), Error>)
        ensures
            match old(self).rewards_credited(amount) {
                Ok(position) => r == Ok::<(), Error>(()) && *final(self) == position,
                Err(e) => r == Err::<(), Error>(e) && *final(self) == *old(self),
            },
            final(self).wf() == old(self).wf(),
    {
        match self.claimable_rewards.checked_add(amount) {
            Some(total) => {
                self.claimable_rewards = total;
                Ok(())
            },
            None => Err(Error::BalanceOverflow),
        }
    }

    /// Hands out the rewards that the account may claim and sets the counter
    /// back to zero. Fails with `NothingToClaim` exactly when the counter is
    /// at zero.
    pub fn claim_rewards(&mut self) -> (r: Result<Balance, Error>)
        ensures
            old(self).claimable_rewards == 0 ==> r == Err::<Balance, Error>(Error::NothingToClaim)
                && *final(self) == *old(self),
            old(self).claimable_rewards > 0 ==> r == Ok::<Balance, Error>(
                old(self).claimable_rewards,
            ) && *final(self) == (Position { claimable_rewards: 0, ..*old(self) }),
    {
        if self.claimable_rewards == 0 {
            return Err(Error::NothingToClaim);
        }
        let amount: Balance = self.claimable_rewards;
        self.claimable_rewards = 0;
        Ok(amount)
    }
}

/// The pool, the position and the result after [`supply`].
pub open spec fn supply_outcome(
    pool: LendingPool,
    position: Position,
    amount: Balance,
    now: Timestamp,
) -> (LendingPool, Position, Result<(), Error>) {
    let (settled, accrual) = pool.accrual_outcome(now);
    let minted = shares_for(amount as int, settled.supply_index as int);
    if amount == 0 {
        (pool, position, Err(Error::ZeroAmount))
    } else if pool.status != PoolStatus::Active {
        (pool, position, Err(Error::PoolInactive))
    } else if accrual is Err {
        (settled, position, accrual)
    } else if position.supply_shares + minted > u128::MAX || settled.total_supplied + amount
        > u64::MAX {
        (pool, position, Err(Error::BalanceOverflow))
    } else {
        (
            LendingPool { total_supplied: (settled.total_supplied + amount) as u64, ..settled },
            Position { supply_shares: (position.supply_shares + minted) as u128, ..position },
            Ok(()),
        )
    }
}

/// The pool, the position and the result after [`withdraw`].
pub open spec fn withdraw_outcome(
    pool: LendingPool,
    position: Position,
    amount: Balance,
    now: Timestamp,
) -> (LendingPool, Position, Result<(), Error>) {
    let (settled, accrual) = pool.accrual_outcome(now);
    let burnt = shares_to_burn(
        position.supply_shares as int,
        amount as int,
        settled.supply_index as int,
    );
    if amount == 0 {
        (pool, position, Err(Error::ZeroAmount))
    } else if accrual is Err {
        (settled, position, accrual)
    } else if amount > position.supply_balance_at(settled.supply_index as int) {
        (pool, position, Err(Error::InsufficientBalance))
    } else if settled.total_supplied - amount < settled.total_borrowed {
        (pool, position, Err(Error::InsufficientPoolLiquidity))
    } else {
        (
            LendingPool { total_supplied: (settled.total_supplied - amount) as u64, ..settled },
            Position { supply_shares: (position.supply_shares - burnt) as u128, ..position },
            Ok(()),
        )
    }
}

/// The pool, the position and the result after [`borrow`].
pub open spec fn borrow_outcome(
    pool: LendingPool,
    position: Position,
    amount: Balance,
    now: Timestamp,
) -> (LendingPool, Position, Result<(), Error>) {
    let (settled, accrual) = pool.accrual_outcome(now);
    let debt = position.debt_at(settled.borrow_index as int);
    if amount == 0 {
        (pool, position, Err(Error::ZeroAmount))
    } else if pool.status != PoolStatus::Active {
        (pool, position, Err(Error::PoolInactive))
    } else if accrual is Err {
        (settled, position, accrual)
    } else if amount > settled.available() {
        (pool, position, Err(Error::InsufficientPoolLiquidity))
    } else if debt + amount > u64::MAX {
        (pool, position, Err(Error::BalanceOverflow))
    } else {
        (
            LendingPool { total_borrowed: (settled.total_borrowed + amount) as u64, ..settled },
            Position {
                borrow_principal: (debt + amount) as u64,
                borrow_index_snapshot: settled.borrow_index,
                ..position
            },
            Ok(()),
        )
    }
}

/// The pool, the position and the result after [`repay`].
pub open spec fn repay_outcome(
    pool: LendingPool,
    position: Position,
    amount: Balance,
    now: Timestamp,
) -> (LendingPool, Position, Result<(), Error>) {
    let (settled, accrual) = pool.accrual_outcome(now);
    let debt = position.debt_at(settled.borrow_index as int);
    let principal_paid = if amount <= settled.total_borrowed {
        amount
    } else {
        settled.total_borrowed
    };
    if amount == 0 {
        (pool, position, Err(Error::ZeroAmount))
    } else if accrual is Err {
        (settled, position, accrual)
    } else if amount > debt {
        (pool, position, Err(Error::RepayExceedsDebt))
    } else if debt - amount > u64::MAX {
        (pool, position, Err(Error::BalanceOverflow))
    } else {
        (
            LendingPool {
                total_borrowed: (settled.total_borrowed - principal_paid) as u64,
                ..settled
            },
            Position {
                borrow_principal: (debt - amount) as u64,
                borrow_index_snapshot: settled.borrow_index,
                ..position
            },
            Ok(()),
        )
    }
}

/// Puts `amount` into the pool and credits the account with the shares that
/// it buys at the pool's supply index.
///
/// Fails with `ZeroAmount` for an amount of zero, with `PoolInactive` for a
/// pool that is not active, with the accrual's error where compounding
/// fails, and with `BalanceOverflow` where the shares
/// or the pool's total cannot hold the deposit.
pub fn supply(
    pool: &mut LendingPool,
    position: &mut Position,
    amount: Balance,
    now: Timestamp,
) -> (r: Result<(), Error>)
    requires
        old(pool).wf(),
        old(position).wf(),
    ensures
        (*final(pool), *final(position), r) == supply_outcome(
            *old(pool),
            *old(position),
            amount,
            now,
        ),
        final(pool).wf(),
        final(position).wf(),
{
    if amount == 0 {
        return Err(Error::ZeroAmount);
    }
    match pool.status {
        PoolStatus::Active => {},
        PoolStatus::Inactive => {
            return Err(Error::PoolInactive);
        },
    }
    let mut settled: LendingPool = *pool;
    match settled.accrue(now) {
        Ok(()) => {},
        Err(e) => {
            *pool = settled;
            return Err(e);
        },
    }
    proof {
        lemma_mul_monotone(amount as int, u64::MAX as int, SHARE_SCALE as int, SHARE_SCALE as int);
        lemma_div_nonneg(amount * SHARE_SCALE, settled.supply_index as int);
    }
    let minted: u128 = (amount as u128) * SHARE_SCALE / (settled.supply_index as u128);
    let shares: u128 = match position.supply_shares.checked_add(minted) {
        Some(shares) => shares,
        None => {
            return Err(Error::BalanceOverflow);
        },
    };
    let total: Balance = match settled.total_supplied.checked_add(amount) {
        Some(total) => total,
        None => {
            return Err(Error::BalanceOverflow);
        },
    };
    settled.total_supplied = total;
    *pool = settled;
    position.supply_shares = shares;
    Ok(())
}

/// Takes `amount` out of the pool and burns the shares that it costs at the
/// pool's supply index; a withdrawal of the whole balance burns every share.
///
/// Fails with `ZeroAmount` for an amount of zero, with the accrual's error
/// where compounding fails, with `InsufficientBalance` where the account's
/// balance is smaller than `amount`, and with `InsufficientPoolLiquidity`
/// where the pool would be left holding less than it has lent out.
pub fn withdraw(
    pool: &mut LendingPool,
    position: &mut Position,
    amount: Balance,
    now: Timestamp,
) -> (r: Result<(), Error>)
    requires
        old(pool).wf(),
        old(position).wf(),
    ensures
        (*final(pool), *final(position), r) == withdraw_outcome(
            *old(pool),
            *old(position),
            amount,
            now,
        ),
        final(pool).wf(),
        final(position).wf(),
{
    if amount == 0 {
        return Err(Error::ZeroAmount);
    }
    let mut settled: LendingPool = *pool;
    match settled.accrue(now) {
        Ok(()) => {},
        Err(e) => {
            *pool = settled;
            return Err(e);
        },
    }
    let balance: Option<Balance> = position.supply_balance(settled.supply_index);
    let whole: bool = match balance {
        Some(balance) => {
            if amount > balance {
                return Err(Error::InsufficientBalance);
            }
            amount == balance
        },
        None => false,
    };
    if settled.total_supplied - settled.total_borrowed < amount {
        return Err(Error::InsufficientPoolLiquidity);
    }
    proof {
        lemma_mul_monotone(amount as int, u64::MAX as int, SHARE_SCALE as int, SHARE_SCALE as int);
        lemma_burn_within_shares(
            position.supply_shares as int,
            amount as int,
            settled.supply_index as int,
        );
    }
    let burnt: u128 = if whole {
        position.supply_shares
    } else {
        ((amount as u128) * SHARE_SCALE + (settled.supply_index as u128 - 1)) / (
        settled.supply_index as u128)
    };
    settled.total_supplied = settled.total_supplied - amount;
    *pool = settled;
    position.supply_shares = position.supply_shares - burnt;
    Ok(())
}

/// Lends `amount` out of the pool and adds it to the account's debt, brought
/// up to date at the pool's borrow index.
///
/// Fails with `ZeroAmount` for an amount of zero, with `PoolInactive` for a
/// pool that is not active, with the accrual's error where compounding
/// fails, with `InsufficientPoolLiquidity` where
/// `amount` is more than the pool has idle outside its reserves, and with
/// `BalanceOverflow` where the debt cannot be stored.
pub fn borrow(
    pool: &mut LendingPool,
    position: &mut Position,
    amount: Balance,
    now: Timestamp,
) -> (r: Result<(), Error>)
    requires
        old(pool).wf(),
        old(position).wf(),
    ensures
        (*final(pool), *final(position), r) == borrow_outcome(
            *old(pool),
            *old(position),
            amount,
            now,
        ),
        final(pool).wf(),
        final(position).wf(),
{
    if amount == 0 {
        return Err(Error::ZeroAmount);
    }
    match pool.status {
        PoolStatus::Active => {},
        PoolStatus::Inactive => {
            return Err(Error::PoolInactive);
        },
    }
    let mut settled: LendingPool = *pool;
    match settled.accrue(now) {
        Ok(()) => {},
        Err(e) => {
            *pool = settled;
            return Err(e);
        },
    }
    if amount > settled.available_liquidity() {
        return Err(Error::InsufficientPoolLiquidity);
    }
    let debt: u128 = position.debt(settled.borrow_index);
    if debt > (u64::MAX - amount) as u128 {
        return Err(Error::BalanceOverflow);
    }
    settled.total_borrowed = settled.total_borrowed + amount;
    *pool = settled;
    position.borrow_principal = (debt + amount as u128) as u64;
    position.borrow_index_snapshot = settled.borrow_index;
    Ok(())
}

/// Pays `amount` of the account's debt back into the pool.
///
/// A repayment above the debt is turned down with `RepayExceedsDebt`; it is
/// never cut short. The pool's borrowed principal goes down by `amount`, or to
/// zero where interest makes the repayment larger than the principal that is
/// still out. Fails with `ZeroAmount` for an amount of zero, with the
/// accrual's error where compounding fails, and with
/// `BalanceOverflow` where what is left of the debt cannot be stored.
pub fn repay(
    pool: &mut LendingPool,
    position: &mut Position,
    amount: Balance,
    now: Timestamp,
) -> (r: Result<(), Error>)
    requires
        old(pool).wf(),
        old(position).wf(),
    ensures
        (*final(pool), *final(position), r) == repay_outcome(
            *old(pool),
            *old(position),
            amount,
            now,
        ),
        final(pool).wf(),
        final(position).wf(),
{
    if amount == 0 {
        return Err(Error::ZeroAmount);
    }
    let mut settled: LendingPool = *pool;
    match settled.accrue(now) {
        Ok(()) => {},
        Err(e) => {
            *pool = settled;
            return Err(e);
        },
    }
    let debt: u128 = position.debt(settled.borrow_index);
    if amount as u128 > debt {
        return Err(Error::RepayExceedsDebt);
    }
    let left: u128 = debt - amount as u128;
    if left > u64::MAX as u128 {
        return Err(Error::BalanceOverflow);
    }
    let principal_paid: Balance = if amount <= settled.total_borrowed {
        amount
    } else {
        settled.total_borrowed
    };
    settled.total_borrowed = settled.total_borrowed - principal_paid;
    *pool = settled;
    position.borrow_principal = left as u64;
    position.borrow_index_snapshot = settled.borrow_index;
    Ok(())
}

/// An account whose balance covers `amount` holds the shares that taking
/// `amount` out costs.
pub proof fn lemma_burn_within_shares(shares: int, amount: int, index: int)
    requires
        0 <= shares,
        0 <= amount,
        0 < index,
        amount <= balance_of(shares, index),
    ensures
        0 <= shares_to_burn(shares, amount, index) <= shares,
        0 <= (amount * SHARE_SCALE + index - 1) / index <= shares,
{
    let t = SHARE_SCALE as int;
    let burnt = (amount * t + index - 1) / index;
    lemma_div_bounds(shares * index, t);
    lemma_div_bounds(amount * t + index - 1, index);
    lemma_mul_monotone(0, amount, t, t);
    lemma_div_nonneg(amount * t + index - 1, index);
    assert(burnt <= shares) by (nonlinear_arith)
        requires
            0 < index,
            0 < t,
            burnt * index <= amount * t + index - 1,
            (shares * index / t) * t <= shares * index,
            amount <= shares * index / t,
    ;
}

/// Supplying `amount` raises the balance by `amount`, short of at most one
/// unit.
pub proof fn lemma_supply_raises_balance(shares: int, amount: int, index: int)
    requires
        0 <= shares,
        0 <= amount,
        SCALE <= index <= MAX_INDEX,
    ensures
        balance_of(shares, index) + amount - 1 <= balance_of(
            shares + shares_for(amount, index),
            index,
        ) <= balance_of(shares, index) + amount,
{
    let t = SHARE_SCALE as int;
    let minted = shares_for(amount, index);
    let before = balance_of(shares, index);
    let after = balance_of(shares + minted, index);
    lemma_div_bounds(amount * t, index);
    lemma_div_bounds(shares * index, t);
    lemma_div_bounds((shares + minted) * index, t);
    assert(before + amount - 1 <= after <= before + amount) by (nonlinear_arith)
        requires
            0 < index <= t,
            minted * index <= amount * t < minted * index + index,
            before * t <= shares * index < before * t + t,
            after * t <= (shares + minted) * index < after * t + t,
    ;
}

/// Taking `amount` out lowers the balance by `amount`, and by at most one
/// unit more.
pub proof fn lemma_withdraw_lowers_balance(shares: int, amount: int, index: int)
    requires
        0 <= shares,
        0 <= amount <= balance_of(shares, index),
        SCALE <= index <= MAX_INDEX,
    ensures
        balance_of(shares, index) - amount - 1 <= balance_of(
            shares - shares_to_burn(shares, amount, index),
            index,
        ) <= balance_of(shares, index) - amount,
{
    let t = SHARE_SCALE as int;
    let before = balance_of(shares, index);
    if amount == before {
        assert(0 * index == 0) by (nonlinear_arith);
    } else {
        let burnt = (amount * t + index - 1) / index;
        let after = balance_of(shares - burnt, index);
        lemma_div_bounds(amount * t + index - 1, index);
        lemma_div_bounds(shares * index, t);
        lemma_div_bounds((shares - burnt) * index, t);
        assert(before - amount - 1 <= after <= before - amount) by (nonlinear_arith)
            requires
                0 < index <= t,
                burnt * index <= amount * t + index - 1 < burnt * index + index,
                before * t <= shares * index < before * t + t,
                after * t <= (shares - burnt) * index < after * t + t,
        ;
    }
}

/// Each of the four transitions keeps the pool and the position well formed,
/// whether it succeeds or fails. In particular the pool never ends up having
/// lent out more than it holds.
pub proof fn lemma_transitions_keep_wf(
    pool: LendingPool,
    position: Position,
    amount: Balance,
    now: Timestamp,
)
    requires
        pool.wf(),
        position.wf(),
    ensures
        supply_outcome(pool, position, amount, now).0.wf(),
        supply_outcome(pool, position, amount, now).1.wf(),
        withdraw_outcome(pool, position, amount, now).0.wf(),
        withdraw_outcome(pool, position, amount, now).1.wf(),
        borrow_outcome(pool, position, amount, now).0.wf(),
        borrow_outcome(pool, position, amount, now).1.wf(),
        repay_outcome(pool, position, amount, now).0.wf(),
        repay_outcome(pool, position, amount, now).1.wf(),
{
    lemma_accrual_keeps_wf(pool, now);
}

/// A transition that fails changes nothing, with one exception: where
/// compounding overflows, the pool is frozen. The position is never touched
/// by a failure.
pub proof fn lemma_failure_changes_nothing(
    pool: LendingPool,
    position: Position,
    amount: Balance,
    now: Timestamp,
    outcome: (LendingPool, Position, Result<(), Error>),
)
    requires
        outcome == supply_outcome(pool, position, amount, now) || outcome == withdraw_outcome(
            pool,
            position,
            amount,
            now,
        ) || outcome == borrow_outcome(pool, position, amount, now) || outcome == repay_outcome(
            pool,
            position,
            amount,
            now,
        ),
        outcome.2 is Err,
    ensures
        outcome.1 == position,
        outcome.2 != Err::<(), Error>(Error::ArithmeticOverflow) ==> outcome.0 == pool,
        outcome.2 == Err::<(), Error>(Error::ArithmeticOverflow) ==> outcome.0 == (LendingPool {
            frozen: true,
            ..pool
        }),
{
}

/// An inactive pool takes no new supply and no new borrow, and treats
/// withdrawals and repayments just as an active pool does.
pub proof fn lemma_inactive_pool_lets_users_out(
    pool: LendingPool,
    position: Position,
    amount: Balance,
    now: Timestamp,
)
    requires
        pool.status == PoolStatus::Inactive,
        amount > 0,
    ensures
        supply_outcome(pool, position, amount, now) == (pool, position, Err::<(), Error>(
            Error::PoolInactive,
        )),
        borrow_outcome(pool, position, amount, now) == (pool, position, Err::<(), Error>(
            Error::PoolInactive,
        )),
        ({
            let active = LendingPool { status: PoolStatus::Active, ..pool };
            let (after, held, result) = withdraw_outcome(active, position, amount, now);
            withdraw_outcome(pool, position, amount, now) == (
                LendingPool { status: PoolStatus::Inactive, ..after },
                held,
                result,
            )
        }),
        ({
            let active = LendingPool { status: PoolStatus::Active, ..pool };
            let (after, held, result) = repay_outcome(active, position, amount, now);
            repay_outcome(pool, position, amount, now) == (
                LendingPool { status: PoolStatus::Inactive, ..after },
                held,
                result,
            )
        }),
{
}

/// What is supplied can be taken out again at once, short of at most one
/// unit: a supply of `amount` raises the account's balance by `amount` or by
/// one unit less, and a withdrawal of that rise at the same moment succeeds.
pub proof fn lemma_supply_withdraw_round_trip(
    pool: LendingPool,
    position: Position,
    amount: Balance,
    now: Timestamp,
)
    requires
        pool.wf(),
        position.wf(),
        supply_outcome(pool, position, amount, now).2 is Ok,
    ensures
        ({
            let (funded, holding, _) = supply_outcome(pool, position, amount, now);
            let rise = holding.supply_balance_at(funded.supply_index as int)
                - position.supply_balance_at(funded.supply_index as int);
            &&& amount - 1 <= rise <= amount
            &&& rise > 0 ==> withdraw_outcome(funded, holding, rise as u64, now).2 is Ok
        }),
{
    lemma_accrual_keeps_wf(pool, now);
    let (funded, holding, _) = supply_outcome(pool, position, amount, now);
    let index = funded.supply_index as int;
    lemma_supply_raises_balance(position.supply_shares as int, amount as int, index);
    lemma_mul_monotone(0, position.supply_shares as int, 0, index);
    lemma_div_nonneg(position.supply_shares * index, SHARE_SCALE as int);
    lemma_accrue_twice(pool, now);
}

} // verus!
