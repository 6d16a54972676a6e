use lending::fixed::SCALE;
use lending::pallet::Pallet;
use lending::pool::{LendingPool, PoolStatus};
use lending::position::Position;
use lending::rate_model::RateParams;
use lending::types::{Error, Event};

const ALICE: u64 = 1;
const BOB: u64 = 2;
const DOT: u32 = 10;
const KSM: u32 = 11;

fn curve() -> RateParams {
    RateParams {
        base_rate: 20_000_000,
        multiplier: 100_000_000,
        jump_multiplier: 1_000_000_000,
        kink_utilization: 800_000_000,
        reserve_factor: 100_000_000,
    }
}

fn pallet_with_pool() -> Pallet {
    let mut pallet = Pallet::new(*b"py/lndng");
    assert_eq!(
        pallet.add_lending_pool(ALICE, DOT, curve(), 100),
        Ok(Event::PoolAdded { who: ALICE, asset: DOT })
    );
    pallet
}

/// Alice has supplied 1000, Bob has borrowed 500, all at time 100.
fn half_lent() -> Pallet {
    let mut pallet = pallet_with_pool();
    assert_eq!(
        pallet.supply(ALICE, DOT, 1000, 100),
        Ok(Event::DepositSupplied { who: ALICE, asset: DOT, balance: 1000 })
    );
    assert_eq!(
        pallet.borrow(BOB, DOT, 500, 100),
        Ok(Event::DepositBorrowed { who: BOB, asset: DOT, balance: 500 })
    );
    pallet
}

fn pool(pallet: &Pallet) -> LendingPool {
    pallet.pools.get(DOT).unwrap()
}

#[test]
fn the_pot_account_is_derived_from_the_pallet_id() {
    let pallet = Pallet::new(*b"py/lndng");
    // "modl" followed by "py/l", least significant byte first
    assert_eq!(pallet.account_id(), 0x6c2f_7970_6c64_6f6d);
    let pallet = Pallet::new([0, 0, 0, 0, 9, 9, 9, 9]);
    assert_eq!(pallet.account_id(), 0x0000_0000_6c64_6f6d);
    let pallet = Pallet::new([1, 2, 3, 0xff, 0, 0, 0, 0]);
    assert_eq!(pallet.account_id(), 0xff03_0201_6c64_6f6d);
}

#[test]
fn supply_credits_shares_and_reports_the_deposit() {
    let mut pallet = pallet_with_pool();
    assert_eq!(
        pallet.supply(ALICE, DOT, 1000, 100),
        Ok(Event::DepositSupplied { who: ALICE, asset: DOT, balance: 1000 })
    );
    assert_eq!(pool(&pallet).total_supplied, 1000);
    assert_eq!(
        pallet.positions.get(ALICE, DOT),
        Some(Position { supply_shares: 1000 * SCALE as u128, ..Position::new() })
    );
    assert_eq!(pallet.supply_balance_of(ALICE, DOT), Ok(1000));
    assert_eq!(pallet.supply_balance_of(BOB, DOT), Ok(0));
}

#[test]
fn balance_grows_with_accrual() {
    let mut pallet = half_lent();
    assert_eq!(pallet.pools.accrue(DOT, 101), Ok(()));
    assert_eq!(pool(&pallet).supply_index, 1_031_500_000);
    assert_eq!(pallet.supply_balance_of(ALICE, DOT), Ok(1031));
    assert_eq!(pallet.debt_of(BOB, DOT), Ok(535));
    assert_eq!(pallet.debt_of(ALICE, DOT), Ok(0));
}

#[test]
fn balances_of_a_missing_pool_are_not_reported() {
    let pallet = pallet_with_pool();
    assert_eq!(pallet.supply_balance_of(ALICE, KSM), Err(Error::PoolDoesNotExist));
    assert_eq!(pallet.debt_of(ALICE, KSM), Err(Error::PoolDoesNotExist));
}

#[test]
fn withdrawing_everything_destroys_the_position() {
    let mut pallet = pallet_with_pool();
    assert!(pallet.supply(ALICE, DOT, 1000, 100).is_ok());
    assert_eq!(
        pallet.withdraw(ALICE, DOT, 400, 100),
        Ok(Event::DepositWithdrawn { who: ALICE, asset: DOT, balance: 400 })
    );
    assert_eq!(pallet.supply_balance_of(ALICE, DOT), Ok(600));
    assert!(pallet.positions.get(ALICE, DOT).is_some());
    assert!(pallet.withdraw(ALICE, DOT, 600, 100).is_ok());
    assert_eq!(pallet.positions.get(ALICE, DOT), None);
    assert_eq!(pool(&pallet).total_supplied, 0);
}

#[test]
fn positions_of_different_accounts_and_assets_are_apart() {
    let mut pallet = pallet_with_pool();
    assert!(pallet.add_lending_pool(ALICE, KSM, curve(), 100).is_ok());
    assert!(pallet.supply(ALICE, DOT, 10, 100).is_ok());
    assert!(pallet.supply(ALICE, KSM, 20, 100).is_ok());
    assert!(pallet.supply(BOB, DOT, 30, 100).is_ok());
    assert_eq!(pallet.supply_balance_of(ALICE, DOT), Ok(10));
    assert_eq!(pallet.supply_balance_of(ALICE, KSM), Ok(20));
    assert_eq!(pallet.supply_balance_of(BOB, DOT), Ok(30));
    assert_eq!(pallet.supply_balance_of(BOB, KSM), Ok(0));
    assert_eq!(pool(&pallet).total_supplied, 40);
    assert_eq!(pallet.pools.get(KSM).unwrap().total_supplied, 20);
    assert!(pallet.withdraw(BOB, DOT, 30, 100).is_ok());
    assert_eq!(pallet.supply_balance_of(ALICE, DOT), Ok(10));
}

#[test]
fn accounts_that_differ_in_the_high_bits_are_apart() {
    let mut pallet = pallet_with_pool();
    assert!(pallet.supply(1, DOT, 10, 100).is_ok());
    assert!(pallet.supply(1 << 32, DOT, 20, 100).is_ok());
    assert!(pallet.supply(u64::MAX, DOT, 30, 100).is_ok());
    assert!(pallet.add_lending_pool(ALICE, u32::MAX, curve(), 100).is_ok());
    assert!(pallet.supply(0, u32::MAX, 40, 100).is_ok());
    assert_eq!(pallet.supply_balance_of(1, DOT), Ok(10));
    assert_eq!(pallet.supply_balance_of(1 << 32, DOT), Ok(20));
    assert_eq!(pallet.supply_balance_of(u64::MAX, DOT), Ok(30));
    assert_eq!(pallet.supply_balance_of(0, u32::MAX), Ok(40));
    assert_eq!(pallet.supply_balance_of(1, u32::MAX), Ok(0));
}

#[test]
fn the_next_borrow_from_a_fully_lent_pool_fails() {
    let mut pallet = pallet_with_pool();
    assert!(pallet.supply(ALICE, DOT, 1000, 100).is_ok());
    assert!(pallet.borrow(BOB, DOT, 1000, 100).is_ok());
    assert_eq!(pool(&pallet).total_supplied, 1000);
    assert_eq!(pool(&pallet).total_borrowed, 1000);
    assert_eq!(pallet.borrow(BOB, DOT, 1, 100), Err(Error::InsufficientPoolLiquidity));
    assert_eq!(pallet.borrow(ALICE, DOT, 1, 100), Err(Error::InsufficientPoolLiquidity));
    assert_eq!(pool(&pallet).total_borrowed, 1000);
}

#[test]
fn remove_lending_pool_with_borrowed_principal_fails() {
    let mut pallet = half_lent();
    assert_eq!(pallet.remove_lending_pool(ALICE, DOT), Err(Error::PoolNotEmpty));
    assert!(pallet.pools.contains(DOT));
}

#[test]
fn a_pool_is_removed_once_it_is_empty() {
    let mut pallet = half_lent();
    assert_eq!(
        pallet.repay(BOB, DOT, 500, 100),
        Ok(Event::DepositRepaid { who: BOB, asset: DOT, balance: 500 })
    );
    assert_eq!(pallet.positions.get(BOB, DOT), None);
    assert_eq!(pallet.remove_lending_pool(ALICE, DOT), Err(Error::PoolNotEmpty));
    assert!(pallet.withdraw(ALICE, DOT, 1000, 100).is_ok());
    assert_eq!(
        pallet.remove_lending_pool(ALICE, DOT),
        Ok(Event::PoolRemoved { who: ALICE, asset: DOT })
    );
    assert!(!pallet.pools.contains(DOT));
    assert_eq!(pallet.remove_lending_pool(ALICE, DOT), Err(Error::PoolDoesNotExist));
}

#[test]
fn repayment_above_the_accrued_debt_is_rejected() {
    let mut pallet = half_lent();
    assert_eq!(pallet.repay(BOB, DOT, 536, 101), Err(Error::RepayExceedsDebt));
    assert_eq!(pallet.repay(ALICE, DOT, 1, 101), Err(Error::RepayExceedsDebt));
    assert_eq!(pool(&pallet).last_accrual, 100);
    assert!(pallet.repay(BOB, DOT, 535, 101).is_ok());
    assert_eq!(pallet.debt_of(BOB, DOT), Ok(0));
}

#[test]
fn solvency_holds_after_every_operation() {
    let mut pallet = pallet_with_pool();
    let steps: [(u8, u64, u64, u64); 12] = [
        (0, ALICE, 1000, 100),
        (2, BOB, 700, 101),
        (1, ALICE, 400, 105),
        (1, ALICE, 300, 106),
        (2, BOB, 300, 107),
        (2, BOB, 200, 108),
        (3, BOB, 100, 120),
        (1, ALICE, 1000, 121),
        (3, BOB, 5000, 122),
        (0, BOB, u64::MAX, 123),
        (2, ALICE, u64::MAX, 124),
        (1, BOB, u64::MAX, 200),
    ];
    for (kind, who, amount, now) in steps {
        let _ = match kind {
            0 => pallet.supply(who, DOT, amount, now),
            1 => pallet.withdraw(who, DOT, amount, now),
            2 => pallet.borrow(who, DOT, amount, now),
            _ => pallet.repay(who, DOT, amount, now),
        };
        let pool = pool(&pallet);
        assert!(pool.total_supplied >= pool.total_borrowed);
        assert!(pool.is_wf());
    }
}

#[test]
fn zero_amounts_are_rejected_before_the_pool_is_looked_up() {
    let mut pallet = half_lent();
    assert_eq!(pallet.supply(ALICE, DOT, 0, 101), Err(Error::ZeroAmount));
    assert_eq!(pallet.withdraw(ALICE, DOT, 0, 101), Err(Error::ZeroAmount));
    assert_eq!(pallet.borrow(ALICE, DOT, 0, 101), Err(Error::ZeroAmount));
    assert_eq!(pallet.repay(ALICE, DOT, 0, 101), Err(Error::ZeroAmount));
    assert_eq!(pallet.supply(ALICE, KSM, 0, 101), Err(Error::ZeroAmount));
    assert_eq!(pool(&pallet).last_accrual, 100);
}

#[test]
fn dispatches_to_a_missing_pool_fail() {
    let mut pallet = pallet_with_pool();
    assert_eq!(pallet.supply(ALICE, KSM, 1, 100), Err(Error::PoolDoesNotExist));
    assert_eq!(pallet.withdraw(ALICE, KSM, 1, 100), Err(Error::PoolDoesNotExist));
    assert_eq!(pallet.borrow(ALICE, KSM, 1, 100), Err(Error::PoolDoesNotExist));
    assert_eq!(pallet.repay(ALICE, KSM, 1, 100), Err(Error::PoolDoesNotExist));
    assert_eq!(pallet.activate_lending_pool(ALICE, KSM), Err(Error::PoolDoesNotExist));
    assert_eq!(pallet.deactivate_lending_pool(ALICE, KSM), Err(Error::PoolDoesNotExist));
    assert_eq!(
        pallet.update_pool_rate_model(ALICE, KSM, curve(), 100),
        Err(Error::PoolDoesNotExist)
    );
    assert_eq!(pallet.update_pool_kink(ALICE, KSM, 0, 100), Err(Error::PoolDoesNotExist));
    assert_eq!(pallet.thaw_lending_pool(ALICE, KSM, 100), Err(Error::PoolDoesNotExist));
    assert_eq!(pallet.positions.get(ALICE, KSM), None);
}

#[test]
fn adding_a_pool_fails_as_the_ledger_does() {
    let mut pallet = pallet_with_pool();
    assert_eq!(pallet.add_lending_pool(BOB, DOT, curve(), 100), Err(Error::PoolAlreadyExists));
    let mut params = curve();
    params.jump_multiplier = -1;
    assert_eq!(pallet.add_lending_pool(BOB, KSM, params, 100), Err(Error::InvalidParams));
    assert!(!pallet.pools.contains(KSM));
}

#[test]
fn deactivation_blocks_entry_but_not_exit() {
    let mut pallet = half_lent();
    assert_eq!(pallet.activate_lending_pool(ALICE, DOT), Err(Error::PoolAlreadyActive));
    assert_eq!(
        pallet.deactivate_lending_pool(ALICE, DOT),
        Ok(Event::PoolDeactivated { who: ALICE, asset: DOT })
    );
    assert_eq!(pool(&pallet).status, PoolStatus::Inactive);
    assert_eq!(pallet.deactivate_lending_pool(ALICE, DOT), Err(Error::PoolAlreadyInactive));
    assert_eq!(pallet.supply(ALICE, DOT, 1, 100), Err(Error::PoolInactive));
    assert_eq!(pallet.borrow(BOB, DOT, 1, 100), Err(Error::PoolInactive));
    assert!(pallet.repay(BOB, DOT, 500, 100).is_ok());
    assert!(pallet.withdraw(ALICE, DOT, 1000, 100).is_ok());
    assert_eq!(
        pallet.activate_lending_pool(ALICE, DOT),
        Ok(Event::PoolActivated { who: ALICE, asset: DOT })
    );
    assert!(pallet.supply(ALICE, DOT, 1, 100).is_ok());
}

#[test]
fn rate_model_and_kink_updates_are_reported() {
    let mut pallet = half_lent();
    let mut params = curve();
    params.base_rate = 0;
    assert_eq!(
        pallet.update_pool_rate_model(ALICE, DOT, params, 101),
        Ok(Event::RateModelUpdated { who: ALICE, asset: DOT })
    );
    assert_eq!(pool(&pallet).params, params);
    assert_eq!(pool(&pallet).borrow_index, 1_070_000_000);
    assert_eq!(
        pallet.update_pool_kink(ALICE, DOT, 500_000_000, 101),
        Ok(Event::KinkUpdated { who: ALICE, asset: DOT })
    );
    assert_eq!(pool(&pallet).params.kink_utilization, 500_000_000);
    params.multiplier = -3;
    assert_eq!(pallet.update_pool_rate_model(ALICE, DOT, params, 101), Err(Error::InvalidParams));
    assert_eq!(pallet.update_pool_kink(ALICE, DOT, -1, 101), Err(Error::InvalidParams));
}

#[test]
fn overflow_freezes_the_pool_until_it_is_thawed() {
    let mut pallet = half_lent();
    let mut stretched = pool(&pallet);
    stretched.supply_index = 1_000_000_000_000_000_000;
    pallet.pools.put(stretched);
    assert_eq!(pallet.thaw_lending_pool(ALICE, DOT, 101), Err(Error::PoolNotFrozen));
    assert_eq!(pallet.repay(BOB, DOT, 1, 101), Err(Error::ArithmeticOverflow));
    assert!(pool(&pallet).frozen);
    assert_eq!(pool(&pallet).total_borrowed, 500);
    assert_eq!(pallet.repay(BOB, DOT, 1, 101), Err(Error::PoolFrozen));
    assert_eq!(pallet.supply(ALICE, DOT, 1, 101), Err(Error::PoolFrozen));
    assert_eq!(
        pallet.thaw_lending_pool(ALICE, DOT, 101),
        Ok(Event::PoolThawed { who: ALICE, asset: DOT })
    );
    assert!(!pool(&pallet).frozen);
    assert!(pallet.repay(BOB, DOT, 1, 101).is_ok());
}

#[test]
fn create_adds_a_pool_and_supplies_to_it() {
    let mut pallet = Pallet::new(*b"py/lndng");
    assert_eq!(
        pallet.create_lending_pool(ALICE, DOT, curve(), 250, 7),
        Ok((
            Event::PoolAdded { who: ALICE, asset: DOT },
            Event::DepositSupplied { who: ALICE, asset: DOT, balance: 250 }
        ))
    );
    assert_eq!(
        pool(&pallet),
        LendingPool { total_supplied: 250, ..LendingPool::open(DOT, curve(), 7).unwrap() }
    );
    assert_eq!(pallet.supply_balance_of(ALICE, DOT), Ok(250));
}

#[test]
fn create_changes_nothing_where_it_fails() {
    let mut pallet = Pallet::new(*b"py/lndng");
    assert_eq!(pallet.create_lending_pool(ALICE, DOT, curve(), 0, 7), Err(Error::ZeroAmount));
    assert!(!pallet.pools.contains(DOT));
    let mut params = curve();
    params.kink_utilization = -1;
    assert_eq!(pallet.create_lending_pool(ALICE, DOT, params, 5, 7), Err(Error::InvalidParams));
    assert!(!pallet.pools.contains(DOT));
    assert!(pallet.create_lending_pool(ALICE, DOT, curve(), 5, 7).is_ok());
    assert_eq!(pallet.create_lending_pool(BOB, DOT, curve(), 5, 7), Err(Error::PoolAlreadyExists));
    assert_eq!(pool(&pallet).total_supplied, 5);
    assert_eq!(pallet.positions.get(BOB, DOT), None);
}

#[test]
fn create_fails_where_left_over_shares_leave_no_room() {
    let mut pallet = Pallet::new(*b"py/lndng");
    pallet.positions.put(ALICE, DOT, Position { supply_shares: u128::MAX, ..Position::new() });
    assert_eq!(pallet.create_lending_pool(ALICE, DOT, curve(), 5, 7), Err(Error::BalanceOverflow));
    assert!(!pallet.pools.contains(DOT));
}

#[test]
fn rewards_are_claimed_once() {
    let mut pallet = half_lent();
    assert_eq!(pallet.claim_rewards(ALICE, DOT), Err(Error::NothingToClaim));
    assert_eq!(pallet.positions.credit_rewards(ALICE, DOT, 17), Ok(()));
    assert_eq!(pallet.positions.credit_rewards(ALICE, DOT, 3), Ok(()));
    assert_eq!(
        pallet.claim_rewards(ALICE, DOT),
        Ok(Event::RewardsClaimed { who: ALICE, asset: DOT, balance: 20 })
    );
    assert_eq!(pallet.positions.get(ALICE, DOT).unwrap().claimable_rewards, 0);
    assert_eq!(pallet.claim_rewards(ALICE, DOT), Err(Error::NothingToClaim));
    assert_eq!(pallet.supply_balance_of(ALICE, DOT), Ok(1000));
}

#[test]
fn rewards_keep_a_position_alive_until_claimed() {
    let mut pallet = pallet_with_pool();
    assert_eq!(pallet.positions.credit_rewards(BOB, DOT, 5), Ok(()));
    assert!(pallet.positions.get(BOB, DOT).is_some());
    assert!(pallet.claim_rewards(BOB, DOT).is_ok());
    assert_eq!(pallet.positions.get(BOB, DOT), None);
    assert_eq!(pallet.positions.credit_rewards(BOB, DOT, 0), Ok(()));
    assert_eq!(pallet.positions.get(BOB, DOT), None);
    assert_eq!(pallet.positions.credit_rewards(BOB, DOT, u64::MAX), Ok(()));
    assert_eq!(pallet.positions.credit_rewards(BOB, DOT, 1), Err(Error::BalanceOverflow));
}

#[test]
fn a_failed_operation_leaves_the_ledgers_alone() {
    let mut pallet = half_lent();
    let pool_before = pool(&pallet);
    let alice_before = pallet.positions.get(ALICE, DOT);
    let bob_before = pallet.positions.get(BOB, DOT);
    assert_eq!(pallet.withdraw(ALICE, DOT, 5000, 150), Err(Error::InsufficientBalance));
    assert_eq!(pallet.withdraw(ALICE, DOT, 900, 150), Err(Error::InsufficientPoolLiquidity));
    assert_eq!(pallet.borrow(BOB, DOT, 501, 150), Err(Error::InsufficientPoolLiquidity));
    assert_eq!(pallet.repay(BOB, DOT, u64::MAX, 150), Err(Error::RepayExceedsDebt));
    assert_eq!(pool(&pallet), pool_before);
    assert_eq!(pallet.positions.get(ALICE, DOT), alice_before);
    assert_eq!(pallet.positions.get(BOB, DOT), bob_before);
}
