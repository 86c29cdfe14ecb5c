use vstd::prelude::*;

use crate::error::DefiError;
use crate::math::{
    floor_sqrt, integer_sqrt, lemma_div_at_least, lemma_div_at_most, lemma_div_bounds, u256_max,
    U256,
};

verus! {

/// Shares a proportional deposit earns against one side: `add * total_lp / reserve`.
pub open spec fn shares_for(add: int, total_lp: int, reserve: int) -> int {
    add * total_lp / reserve
}

/// The smaller of two integers.
pub open spec fn min_int(a: int, b: int) -> int {
    if a <= b {
        a
    } else {
        b
    }
}

/// What [`add_liquidity_proportional`] returns:
/// `(lp_minted, new_reserve_a, new_reserve_b, new_total_lp)` or the failure met.
pub open spec fn add_liquidity_outcome(
    add_a: u128,
    add_b: u128,
    reserve_a: u128,
    reserve_b: u128,
    total_lp: u128,
) -> Result<(u128, u128, u128, u128), DefiError> {
    if total_lp == 0 {
        if add_a * add_b > u256_max() {
            Err(DefiError::MathOverflow)
        } else {
            let minted = floor_sqrt(add_a * add_b) as u128;
            Ok((minted, add_a, add_b, minted))
        }
    } else {
        let minted = min_int(
            shares_for(add_a as int, total_lp as int, reserve_a as int),
            shares_for(add_b as int, total_lp as int, reserve_b as int),
        );
        if add_a * total_lp > u256_max() || add_b * total_lp > u256_max() || reserve_a + add_a
            > u256_max() || reserve_b + add_b > u256_max() || total_lp + minted > u256_max() {
            Err(DefiError::MathOverflow)
        } else {
            Ok(
                (
                    minted as u128,
                    (reserve_a + add_a) as u128,
                    (reserve_b + add_b) as u128,
                    (total_lp + minted) as u128,
                ),
            )
        }
    }
}

/// Deposits `(add_a, add_b)` and mints pool shares for it.
///
/// The first deposit (`total_lp == 0`) mints the floor square root of
/// `add_a * add_b` and sets the reserves to the deposit. Later deposits mint the
/// smaller of the two proportional share counts; both amounts join the reserves
/// in full.
pub fn add_liquidity_proportional(
    add_a: U256,
    add_b: U256,
    reserve_a: U256,
    reserve_b: U256,
    total_lp: U256,
) -> (r: Result<(U256, U256, U256, U256), DefiError>)
    requires
        total_lp > 0 ==> reserve_a > 0 && reserve_b > 0,
    ensures
        r == add_liquidity_outcome(add_a, add_b, reserve_a, reserve_b, total_lp),
{
    if total_lp == 0 {
        let k = add_a.checked_mul(add_b).ok_or(DefiError::MathOverflow)?;
        let lp_minted = integer_sqrt(k);
        Ok((lp_minted, add_a, add_b, lp_minted))
    } else {
        let lp_a = add_a.checked_mul(total_lp).ok_or(DefiError::MathOverflow)? / reserve_a;
        let lp_b = add_b.checked_mul(total_lp).ok_or(DefiError::MathOverflow)? / reserve_b;
        let lp_minted = if lp_a <= lp_b {
            lp_a
        } else {
            lp_b
        };
        let new_res_a = reserve_a.checked_add(add_a).ok_or(DefiError::MathOverflow)?;
        let new_res_b = reserve_b.checked_add(add_b).ok_or(DefiError::MathOverflow)?;
        let new_total = total_lp.checked_add(lp_minted).ok_or(DefiError::MathOverflow)?;
        Ok((lp_minted, new_res_a, new_res_b, new_total))
    }
}

/// What [`remove_liquidity`] returns:
/// `(out_a, out_b, new_reserve_a, new_reserve_b, new_total_lp)` or the failure met.
pub open spec fn remove_liquidity_outcome(
    lp_burn: u128,
    reserve_a: u128,
    reserve_b: u128,
    total_lp: u128,
) -> Result<(u128, u128, u128, u128, u128), DefiError> {
    let out_a = reserve_a * lp_burn / total_lp as int;
    let out_b = reserve_b * lp_burn / total_lp as int;
    if lp_burn == 0 || total_lp == 0 {
        Err(DefiError::AmountTooSmall)
    } else if reserve_a * lp_burn > u256_max() || reserve_b * lp_burn > u256_max() || lp_burn
        > total_lp {
        Err(DefiError::MathOverflow)
    } else {
        Ok(
            (
                out_a as u128,
                out_b as u128,
                (reserve_a - out_a) as u128,
                (reserve_b - out_b) as u128,
                (total_lp - lp_burn) as u128,
            ),
        )
    }
}

/// A share of at most the whole pays at most the reserve: `lp <= total`
/// gives `reserve * lp / total <= reserve`.
proof fn lemma_payout_within_reserve(reserve: int, lp: int, total: int)
    requires
        0 <= reserve,
        0 <= lp <= total,
        0 < total,
    ensures
        0 <= reserve * lp / total <= reserve,
{
    assert(0 <= reserve * lp <= reserve * total) by (nonlinear_arith)
        requires 0 <= reserve, 0 <= lp <= total;
    lemma_div_at_most(reserve * lp, total, reserve);
    lemma_div_bounds(reserve * lp, total);
}

/// Burns `lp_burn` pool shares and pays out the matching part of each reserve,
/// rounded down.
///
/// Returns `(out_a, out_b, new_reserve_a, new_reserve_b, new_total_lp)`.
pub fn remove_liquidity(lp_burn: U256, reserve_a: U256, reserve_b: U256, total_lp: U256) -> (r:
    Result<(U256, U256, U256, U256, U256), DefiError>)
    ensures
        r == remove_liquidity_outcome(lp_burn, reserve_a, reserve_b, total_lp),
{
    if lp_burn == 0 || total_lp == 0 {
        return Err(DefiError::AmountTooSmall);
    }
    let out_a = reserve_a.checked_mul(lp_burn).ok_or(DefiError::MathOverflow)? / total_lp;
    let out_b = reserve_b.checked_mul(lp_burn).ok_or(DefiError::MathOverflow)? / total_lp;
    if lp_burn <= total_lp {
        proof {
            lemma_payout_within_reserve(reserve_a as int, lp_burn as int, total_lp as int);
            lemma_payout_within_reserve(reserve_b as int, lp_burn as int, total_lp as int);
        }
    }
    let new_res_a = reserve_a.checked_sub(out_a).ok_or(DefiError::MathOverflow)?;
    let new_res_b = reserve_b.checked_sub(out_b).ok_or(DefiError::MathOverflow)?;
    let new_total = total_lp.checked_sub(lp_burn).ok_or(DefiError::MathOverflow)?;
    Ok((out_a, out_b, new_res_a, new_res_b, new_total))
}

/// Burning a side's share of the grown pool returns at most what was added on
/// that side: `lp * reserve <= add * total` gives
/// `(reserve + add) * lp / (total + lp) <= add`.
proof fn lemma_burn_side_at_most_deposit(add: int, reserve: int, total: int, lp: int)
    requires
        0 <= add,
        0 <= reserve,
        0 <= total,
        0 < total + lp,
        0 <= lp,
        lp * reserve <= add * total,
    ensures
        (reserve + add) * lp / (total + lp) <= add,
{
    assert((reserve + add) * lp <= add * (total + lp)) by (nonlinear_arith)
        requires lp * reserve <= add * total;
    assert(0 <= (reserve + add) * lp) by (nonlinear_arith)
        requires 0 <= reserve + add, 0 <= lp;
    lemma_div_at_most((reserve + add) * lp, total + lp, add);
}

/// Minting shares for a deposit and at once burning every share minted pays
/// back at most the deposit on each side.
pub proof fn lemma_mint_then_burn_at_most_deposit(
    add_a: u128,
    add_b: u128,
    reserve_a: u128,
    reserve_b: u128,
    total_lp: u128,
)
    requires
        total_lp > 0 ==> reserve_a > 0 && reserve_b > 0,
    ensures
        add_liquidity_outcome(add_a, add_b, reserve_a, reserve_b, total_lp) matches Ok(
            (minted, new_a, new_b, new_total),
        ) ==> (remove_liquidity_outcome(minted, new_a, new_b, new_total) matches Ok(
            (out_a, out_b, _, _, _),
        ) ==> out_a <= add_a && out_b <= add_b),
{
    if let Ok((minted, new_a, new_b, new_total)) = add_liquidity_outcome(
        add_a,
        add_b,
        reserve_a,
        reserve_b,
        total_lp,
    ) {
        if remove_liquidity_outcome(minted, new_a, new_b, new_total) is Ok {
            let lp = minted as int;
            let t = total_lp as int;
            if total_lp == 0 {
                assert(new_total == minted);
                lemma_burn_side_at_most_deposit(add_a as int, 0, 0, lp);
                lemma_burn_side_at_most_deposit(add_b as int, 0, 0, lp);
            } else {
                let sa = shares_for(add_a as int, t, reserve_a as int);
                let sb = shares_for(add_b as int, t, reserve_b as int);
                assert(0 <= add_a * t && 0 <= add_b * t) by (nonlinear_arith)
                    requires 0 <= add_a, 0 <= add_b, 0 <= t;
                lemma_div_bounds(add_a * t, reserve_a as int);
                lemma_div_bounds(add_b * t, reserve_b as int);
                assert(lp * reserve_a <= add_a * t) by (nonlinear_arith)
                    requires lp <= sa, sa * reserve_a <= add_a * t, 0 <= reserve_a;
                assert(lp * reserve_b <= add_b * t) by (nonlinear_arith)
                    requires lp <= sb, sb * reserve_b <= add_b * t, 0 <= reserve_b;
                lemma_burn_side_at_most_deposit(add_a as int, reserve_a as int, t, lp);
                lemma_burn_side_at_most_deposit(add_b as int, reserve_b as int, t, lp);
            }
        }
    }
}

} // verus!
