use vstd::prelude::*;

use crate::error::DefiError;
use crate::math::{
    lemma_div_at_least, lemma_div_bounds, mul_saturating, saturated_product, saturated_sum,
    u256_max, U256, BPS_DENOMINATOR, E18,
};
use crate::oracle::{is_fresh, now_ts, OraclePrice};

verus! {

/// The freshness window, in seconds, that a liquidation demands of its price.
pub const LIQUIDATION_MAX_PRICE_AGE: u64 = 60;

/// What [`accrue_interest`] returns: `(new_index, new_total_borrows, new_last_ts)`
/// or the failure met.
///
/// Up to `last_accrual_ts` nothing changes; after it both the index and the
/// borrows grow by the simple-interest factor `1e18 + rate * elapsed`, scaled
/// back by `1e18` and rounded down.
pub open spec fn accrue_interest_outcome(
    borrow_index_e18: u128,
    total_borrows: u128,
    borrow_rate_per_sec_e18: u128,
    last_accrual_ts: u64,
    now_ts: u64,
) -> Result<(u128, u128, u64), DefiError> {
    let delta = borrow_rate_per_sec_e18 * (now_ts - last_accrual_ts);
    let factor = E18 + delta;
    if now_ts <= last_accrual_ts {
        Ok((borrow_index_e18, total_borrows, last_accrual_ts))
    } else if delta > u256_max() || factor > u256_max() || borrow_index_e18 * factor > u256_max()
        || total_borrows * factor > u256_max() {
        Err(DefiError::MathOverflow)
    } else {
        Ok(
            (
                (borrow_index_e18 * factor / E18 as int) as u128,
                (total_borrows * factor / E18 as int) as u128,
                now_ts,
            ),
        )
    }
}

/// Brings a borrow index and the total borrows up to `now_ts` at a per-second
/// rate, both in 18-decimal fixed point.
///
/// When `now_ts` is not after `last_accrual_ts` the inputs come back unchanged,
/// so repeating an accrual at one instant never charges interest twice.
pub fn accrue_interest(
    borrow_index_e18: U256,
    total_borrows: U256,
    borrow_rate_per_sec_e18: U256,
    last_accrual_ts: u64,
    now_ts: u64,
) -> (r: Result<(U256, U256, u64), DefiError>)
    ensures
        r == accrue_interest_outcome(
            borrow_index_e18,
            total_borrows,
            borrow_rate_per_sec_e18,
            last_accrual_ts,
            now_ts,
        ),
{
    if now_ts <= last_accrual_ts {
        return Ok((borrow_index_e18, total_borrows, last_accrual_ts));
    }
    let dt = (now_ts - last_accrual_ts) as u128;
    let delta = borrow_rate_per_sec_e18.checked_mul(dt).ok_or(DefiError::MathOverflow)?;
    let factor_e18 = E18.checked_add(delta).ok_or(DefiError::MathOverflow)?;
    let new_index = borrow_index_e18.checked_mul(factor_e18).ok_or(DefiError::MathOverflow)? / E18;
    let new_total = total_borrows.checked_mul(factor_e18).ok_or(DefiError::MathOverflow)? / E18;
    Ok((new_index, new_total, now_ts))
}

/// Accruing a second time at the same instant, from what the first accrual
/// returned, returns that same snapshot again.
pub proof fn lemma_accrual_idempotent(
    borrow_index_e18: u128,
    total_borrows: u128,
    borrow_rate_per_sec_e18: u128,
    last_accrual_ts: u64,
    now_ts: u64,
)
    ensures
        accrue_interest_outcome(
            borrow_index_e18,
            total_borrows,
            borrow_rate_per_sec_e18,
            last_accrual_ts,
            now_ts,
        ) matches Ok((index, borrows, ts)) ==> accrue_interest_outcome(
            index,
            borrows,
            borrow_rate_per_sec_e18,
            ts,
            now_ts,
        ) == Ok::<(u128, u128, u64), DefiError>((index, borrows, ts)),
{
}

/// An accrual never lowers the index or the total borrows.
pub proof fn lemma_accrual_never_decreases(
    borrow_index_e18: u128,
    total_borrows: u128,
    borrow_rate_per_sec_e18: u128,
    last_accrual_ts: u64,
    now_ts: u64,
)
    ensures
        accrue_interest_outcome(
            borrow_index_e18,
            total_borrows,
            borrow_rate_per_sec_e18,
            last_accrual_ts,
            now_ts,
        ) matches Ok((index, borrows, _)) ==> index >= borrow_index_e18 && borrows
            >= total_borrows,
{
    if now_ts > last_accrual_ts {
        let delta = borrow_rate_per_sec_e18 * (now_ts - last_accrual_ts);
        let factor = E18 + delta;
        assert(0 <= delta) by (nonlinear_arith)
            requires delta == borrow_rate_per_sec_e18 * (now_ts - last_accrual_ts),
                now_ts > last_accrual_ts;
        assert(borrow_index_e18 * E18 <= borrow_index_e18 * factor) by (nonlinear_arith)
            requires factor >= E18, borrow_index_e18 >= 0;
        assert(total_borrows * E18 <= total_borrows * factor) by (nonlinear_arith)
            requires factor >= E18, total_borrows >= 0;
        lemma_div_at_least(borrow_index_e18 * factor, E18 as int, borrow_index_e18 as int);
        lemma_div_at_least(total_borrows * factor, E18 as int, total_borrows as int);
    }
}

/// The debt a position may carry: `collateral * liq_threshold_bps / 10_000`,
/// the product clamped to the largest [`U256`].
pub open spec fn max_debt(collateral_value_e6: int, liq_threshold_bps: int) -> int {
    saturated_product(collateral_value_e6, liq_threshold_bps) / 10_000
}

/// Checks that a position stays healthy after borrowing `add_debt_e6` more.
///
/// Returns the new debt, `debt + add_debt` clamped to the largest [`U256`], or
/// `HealthFactorTooLow` when it would exceed [`max_debt`].
pub fn borrow(
    collateral_value_e6: U256,
    debt_value_e6: U256,
    add_debt_e6: U256,
    liq_threshold_bps: u32,
) -> (r: Result<U256, DefiError>)
    ensures
        ({
            let new_debt = saturated_sum(debt_value_e6 as int, add_debt_e6 as int);
            r == if new_debt > max_debt(collateral_value_e6 as int, liq_threshold_bps as int) {
                Err(DefiError::HealthFactorTooLow)
            } else {
                Ok(new_debt as u128)
            }
        }),
{
    let new_debt = debt_value_e6.saturating_add(add_debt_e6);
    let max_debt_e6 = mul_saturating(collateral_value_e6, liq_threshold_bps as u128)
        / BPS_DENOMINATOR;
    if new_debt > max_debt_e6 {
        return Err(DefiError::HealthFactorTooLow);
    }
    Ok(new_debt)
}

/// What [`liquidate_at`] returns: `(collateral_seized, new_collateral, new_debt)`
/// or the first failure met.
///
/// The repaid debt is valued at `price_debt_e6`, raised by `liq_bonus_bps`
/// (clamped to the largest [`U256`]), and paid in collateral at
/// `price_collat_e6`, each division rounding down.
pub open spec fn liquidate_outcome(
    price_collat_e6: u128,
    price_debt_e6: u128,
    collateral_amount: u128,
    debt_outstanding: u128,
    repay_amount: u128,
    liq_bonus_bps: u32,
    oracle_last_update_ts: u64,
    now: u64,
) -> Result<(u128, u128, u128), DefiError> {
    let repay_value = repay_amount * price_debt_e6;
    let seize_value = saturated_product(repay_value, liq_bonus_bps as int) / 10_000;
    let seized = seize_value / price_collat_e6 as int;
    if !is_fresh(now, oracle_last_update_ts, LIQUIDATION_MAX_PRICE_AGE) {
        Err(DefiError::OracleStale)
    } else if repay_amount == 0 || repay_amount > debt_outstanding {
        Err(DefiError::AmountTooSmall)
    } else if repay_value > u256_max() || price_collat_e6 == 0 {
        Err(DefiError::MathOverflow)
    } else if seized > collateral_amount {
        Err(DefiError::PositionUnderwater)
    } else {
        Ok(
            (
                seized as u128,
                (collateral_amount - seized) as u128,
                (debt_outstanding - repay_amount) as u128,
            ),
        )
    }
}

/// Repays `repay_amount` of a position's debt and seizes collateral worth it
/// plus the liquidation bonus, judging the price's freshness at `now`.
///
/// Returns `(collateral_seized, new_collateral, new_debt)`.
pub fn liquidate_at(
    price_collat_e6: U256,
    price_debt_e6: U256,
    collateral_amount: U256,
    debt_outstanding: U256,
    repay_amount: U256,
    liq_bonus_bps: u32,
    oracle: &OraclePrice,
    now: u64,
) -> (r: Result<(U256, U256, U256), DefiError>)
    ensures
        r == liquidate_outcome(
            price_collat_e6,
            price_debt_e6,
            collateral_amount,
            debt_outstanding,
            repay_amount,
            liq_bonus_bps,
            oracle.last_update_ts,
            now,
        ),
{
    oracle.assert_fresh_at(LIQUIDATION_MAX_PRICE_AGE, now)?;
    if repay_amount == 0 || repay_amount > debt_outstanding {
        return Err(DefiError::AmountTooSmall);
    }
    let repay_value = repay_amount.checked_mul(price_debt_e6).ok_or(DefiError::MathOverflow)?;
    let seize_value = mul_saturating(repay_value, liq_bonus_bps as u128) / BPS_DENOMINATOR;
    let collateral_seized = seize_value.checked_div(price_collat_e6).ok_or(
        DefiError::MathOverflow,
    )?;
    if collateral_seized > collateral_amount {
        return Err(DefiError::PositionUnderwater);
    }
    Ok((collateral_seized, collateral_amount - collateral_seized, debt_outstanding - repay_amount))
}

/// Liquidates as [`liquidate_at`] does, judging freshness by the system clock.
pub fn liquidate(
    price_collat_e6: U256,
    price_debt_e6: U256,
    collateral_amount: U256,
    debt_outstanding: U256,
    repay_amount: U256,
    liq_bonus_bps: u32,
    oracle: &OraclePrice,
) -> (r: Result<(U256, U256, U256), DefiError>)
    ensures
        exists|now: u64|
            r == #[trigger] liquidate_outcome(
                price_collat_e6,
                price_debt_e6,
                collateral_amount,
                debt_outstanding,
                repay_amount,
                liq_bonus_bps,
                oracle.last_update_ts,
                now,
            ),
{
    let now = now_ts();
    liquidate_at(
        price_collat_e6,
        price_debt_e6,
        collateral_amount,
        debt_outstanding,
        repay_amount,
        liq_bonus_bps,
        oracle,
        now,
    )
}

} // verus!
