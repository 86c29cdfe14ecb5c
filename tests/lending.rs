use defi::{accrue_interest, borrow, liquidate, liquidate_at, now_ts, DefiError, OraclePrice, E18};

const GROWN_INDEX: u128 = 1_000_001_000_000_000_000;

#[test]
fn accrual_at_same_instant_changes_nothing() {
    assert_eq!(accrue_interest(E18, 1000, 5, 100, 100), Ok((E18, 1000, 100)));
}

#[test]
fn accrual_out_of_order_changes_nothing() {
    assert_eq!(accrue_interest(E18, 1000, 5, 100, 50), Ok((E18, 1000, 100)));
}

#[test]
fn accrual_grows_linearly() {
    assert_eq!(accrue_interest(E18, 1_000_000, 1_000_000_000, 0, 1000), Ok((GROWN_INDEX, 1_000_001, 1000)));
}

#[test]
fn accrual_at_zero_rate_keeps_values() {
    assert_eq!(accrue_interest(2 * E18, 77, 0, 10, 20), Ok((2 * E18, 77, 20)));
}

#[test]
fn accrual_rate_overflow() {
    assert_eq!(accrue_interest(E18, 1, u128::MAX, 0, 2), Err(DefiError::MathOverflow));
}

#[test]
fn accrual_factor_overflow() {
    assert_eq!(accrue_interest(E18, 1, u128::MAX - 1, 0, 1), Err(DefiError::MathOverflow));
}

#[test]
fn accrual_index_overflow() {
    assert_eq!(accrue_interest(u128::MAX, 1, 1, 0, 1), Err(DefiError::MathOverflow));
}

#[test]
fn accrual_twice_at_once_is_idempotent() {
    let (index, borrows, ts) = accrue_interest(E18, 1_000_000, 1_000_000_000, 0, 1000).unwrap();
    assert_eq!(accrue_interest(index, borrows, 1_000_000_000, ts, 1000), Ok((index, borrows, ts)));
}

#[test]
fn accrual_never_decreases() {
    for (index, borrows, rate, dt) in [(E18, 1_000_000u128, 1_000_000_000u128, 1000u64), (E18, 3, 7, 1), (5, 5, 0, 9)] {
        let (new_index, new_borrows, _) = accrue_interest(index, borrows, rate, 0, dt).unwrap();
        assert!(new_index >= index && new_borrows >= borrows);
    }
}

#[test]
fn borrow_over_threshold_is_unhealthy() {
    assert_eq!(borrow(1000, 0, 900, 8500), Err(DefiError::HealthFactorTooLow));
}

#[test]
fn borrow_up_to_threshold_succeeds() {
    assert_eq!(borrow(1000, 0, 850, 8500), Ok(850));
    assert_eq!(borrow(1000, 100, 750, 8500), Ok(850));
}

#[test]
fn borrow_debt_saturates() {
    assert_eq!(borrow(u128::MAX, u128::MAX, 1, 10_000), Err(DefiError::HealthFactorTooLow));
    assert_eq!(borrow(u128::MAX, u128::MAX - 1, 1, 20_000), Err(DefiError::HealthFactorTooLow));
}

fn oracle_at(ts: u64) -> OraclePrice {
    OraclePrice { price_e6: 1_000_000, last_update_ts: ts }
}

#[test]
fn freshness_window() {
    let p = oracle_at(1000);
    assert_eq!(p.assert_fresh_at(60, 1060), Ok(()));
    assert_eq!(p.assert_fresh_at(60, 1061), Err(DefiError::OracleStale));
    assert_eq!(p.assert_fresh_at(0, 999), Ok(()));
}

#[test]
fn freshness_by_system_clock() {
    assert!(now_ts() > 1_000_000_000);
    assert_eq!(oracle_at(0).assert_fresh(60), Err(DefiError::OracleStale));
    assert_eq!(oracle_at(0).assert_fresh(u64::MAX), Ok(()));
    assert_eq!(oracle_at(u64::MAX).assert_fresh(0), Ok(()));
}

#[test]
fn liquidation_seizes_with_bonus() {
    let p = oracle_at(1000);
    assert_eq!(liquidate_at(2_000_000, 1_000_000, 1000, 500, 100, 10_500, &p, 1030), Ok((52, 948, 400)));
}

#[test]
fn liquidation_with_stale_price() {
    let p = oracle_at(1000);
    assert_eq!(liquidate_at(2_000_000, 1_000_000, 1000, 500, 100, 10_500, &p, 1061), Err(DefiError::OracleStale));
    assert_eq!(liquidate_at(2_000_000, 1_000_000, 1000, 500, 0, 10_500, &p, 1061), Err(DefiError::OracleStale));
}

#[test]
fn liquidation_with_future_price_is_fresh() {
    let p = oracle_at(2000);
    assert_eq!(liquidate_at(2_000_000, 1_000_000, 1000, 500, 100, 10_500, &p, 1000), Ok((52, 948, 400)));
}

#[test]
fn liquidation_repay_bounds() {
    let p = oracle_at(1000);
    assert_eq!(liquidate_at(2_000_000, 1_000_000, 1000, 500, 0, 10_500, &p, 1000), Err(DefiError::AmountTooSmall));
    assert_eq!(liquidate_at(2_000_000, 1_000_000, 1000, 500, 501, 10_500, &p, 1000), Err(DefiError::AmountTooSmall));
    assert_eq!(liquidate_at(2_000_000, 1_000_000, 10_000, 500, 500, 10_500, &p, 1000), Ok((262, 9738, 0)));
}

#[test]
fn liquidation_math_overflow() {
    let p = oracle_at(1000);
    assert_eq!(liquidate_at(1, 2, 10, u128::MAX, u128::MAX, 10_500, &p, 1000), Err(DefiError::MathOverflow));
    assert_eq!(liquidate_at(0, 1_000_000, 1000, 500, 100, 10_500, &p, 1000), Err(DefiError::MathOverflow));
}

#[test]
fn liquidation_underwater() {
    let p = oracle_at(1000);
    assert_eq!(liquidate_at(2_000_000, 1_000_000, 51, 500, 100, 10_500, &p, 1000), Err(DefiError::PositionUnderwater));
    assert_eq!(liquidate_at(2_000_000, 1_000_000, 52, 500, 100, 10_500, &p, 1000), Ok((52, 0, 400)));
}

#[test]
fn liquidation_by_system_clock() {
    assert_eq!(liquidate(2_000_000, 1_000_000, 1000, 500, 100, 10_500, &oracle_at(u64::MAX)), Ok((52, 948, 400)));
    assert_eq!(liquidate(2_000_000, 1_000_000, 1000, 500, 100, 10_500, &oracle_at(0)), Err(DefiError::OracleStale));
}
