use lending::fixed::SCALE;
use lending::rate_model::{utilization, RateParams, Rates};
use lending::types::Error;

fn curve() -> RateParams {
    RateParams {
        base_rate: 20_000_000,
        multiplier: 100_000_000,
        jump_multiplier: 1_000_000_000,
        kink_utilization: 800_000_000,
        reserve_factor: 100_000_000,
    }
}

#[test]
fn borrow_rate_below_the_kink() {
    // 0.02 + 0.1 * 0.5
    let rates = curve().rates(500_000_000).unwrap();
    assert_eq!(rates.borrow_rate, 70_000_000);
}

#[test]
fn borrow_rate_above_the_kink() {
    // 0.02 + 0.1 * 0.8 + 1.0 * (0.9 - 0.8)
    let rates = curve().rates(900_000_000).unwrap();
    assert_eq!(rates.borrow_rate, 200_000_000);
}

#[test]
fn borrow_rate_at_the_kink_takes_the_second_branch() {
    let rates = curve().rates(800_000_000).unwrap();
    assert_eq!(rates.borrow_rate, 100_000_000);
}

#[test]
fn borrow_rate_at_the_ends() {
    assert_eq!(curve().rates(0).unwrap().borrow_rate, 20_000_000);
    assert_eq!(curve().rates(SCALE).unwrap().borrow_rate, 300_000_000);
}

#[test]
fn supply_rate_is_borrow_rate_times_utilization_less_the_reserve_cut() {
    // 0.07 * 0.5 * (1 - 0.1)
    let rates = curve().rates(500_000_000).unwrap();
    assert_eq!(rates, Rates { borrow_rate: 70_000_000, supply_rate: 31_500_000 });
    // 0.2 * 0.9 * 0.9
    let rates = curve().rates(900_000_000).unwrap();
    assert_eq!(rates.supply_rate, 162_000_000);
}

#[test]
fn supply_rate_is_zero_for_an_idle_pool() {
    assert_eq!(curve().rates(0).unwrap().supply_rate, 0);
}

#[test]
fn supply_rate_is_rounded_down() {
    let params = RateParams {
        base_rate: 1,
        multiplier: 0,
        jump_multiplier: 0,
        kink_utilization: SCALE as i64,
        reserve_factor: 0,
    };
    let rates = params.rates(999_999_999).unwrap();
    assert_eq!(rates.borrow_rate, 1);
    assert_eq!(rates.supply_rate, 0);
}

#[test]
fn rates_grow_with_utilization() {
    let mut last = curve().rates(0).unwrap();
    let mut u: u64 = 0;
    while u <= SCALE {
        let next = curve().rates(u).unwrap();
        assert!(next.borrow_rate >= last.borrow_rate);
        assert!(next.supply_rate >= last.supply_rate);
        last = next;
        u += 12_500_000;
    }
}

#[test]
fn largest_parameters_do_not_overflow() {
    let params = RateParams {
        base_rate: i64::MAX,
        multiplier: i64::MAX,
        jump_multiplier: i64::MAX,
        kink_utilization: 0,
        reserve_factor: 0,
    };
    let rates = params.rates(SCALE).unwrap();
    assert_eq!(rates.borrow_rate, 2 * (i64::MAX as u128));
    assert_eq!(rates.supply_rate, 2 * (i64::MAX as u128));
}

#[test]
fn utilization_of_an_empty_pool_is_zero() {
    assert_eq!(utilization(0, 0), 0);
}

#[test]
fn utilization_is_the_borrowed_fraction() {
    assert_eq!(utilization(0, 1000), 0);
    assert_eq!(utilization(500, 1000), 500_000_000);
    assert_eq!(utilization(1000, 1000), SCALE);
    assert_eq!(utilization(1, 3), 333_333_333);
    assert_eq!(utilization(u64::MAX, u64::MAX), SCALE);
}

#[test]
fn valid_parameters_pass() {
    assert_eq!(curve().validate(), Ok(()));
}

#[test]
fn negative_base_rate_is_rejected() {
    let mut params = curve();
    params.base_rate = -1;
    assert_eq!(params.validate(), Err(Error::InvalidParams));
    assert_eq!(params.rates(0), Err(Error::InvalidParams));
}

#[test]
fn negative_slope_is_rejected() {
    let mut params = curve();
    params.multiplier = -1;
    assert_eq!(params.rates(0), Err(Error::InvalidParams));
}

#[test]
fn negative_jump_slope_is_rejected() {
    let mut params = curve();
    params.jump_multiplier = -1;
    assert_eq!(params.rates(0), Err(Error::InvalidParams));
}

#[test]
fn kink_outside_the_unit_interval_is_rejected() {
    let mut params = curve();
    params.kink_utilization = SCALE as i64 + 1;
    assert_eq!(params.rates(0), Err(Error::InvalidParams));
    params.kink_utilization = -1;
    assert_eq!(params.rates(0), Err(Error::InvalidParams));
    params.kink_utilization = SCALE as i64;
    assert!(params.rates(0).is_ok());
}

#[test]
fn reserve_factor_outside_the_unit_interval_is_rejected() {
    let mut params = curve();
    params.reserve_factor = SCALE as i64 + 1;
    assert_eq!(params.rates(0), Err(Error::InvalidParams));
    params.reserve_factor = -1;
    assert_eq!(params.rates(0), Err(Error::InvalidParams));
}
