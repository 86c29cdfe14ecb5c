use vstd::prelude::*;

use crate::error::DefiError;
use crate::math::{lemma_div_at_least, lemma_div_at_most, lemma_div_bounds, u256_max, U256, BPS_DENOMINATOR};

verus! {

/// The input left after the fee: `amount_in * (10_000 - fee_bps) / 10_000`.
pub open spec fn input_after_fee(amount_in: int, fee_bps: int) -> int {
    amount_in * (10_000 - fee_bps) / 10_000
}

/// Constant-product output for a net input: `net_in * reserve_out / (reserve_in + net_in)`.
pub open spec fn constant_product_out(net_in: int, reserve_in: int, reserve_out: int) -> int {
    net_in * reserve_out / (reserve_in + net_in)
}

/// What [`swap_exact_in`] returns: `(amount_out, new_reserve_in, new_reserve_out)`
/// or the first failure met.
pub open spec fn swap_exact_in_outcome(
    amount_in: u128,
    reserve_in: u128,
    reserve_out: u128,
    fee_bps: u32,
    min_out: u128,
) -> Result<(u128, u128, u128), DefiError> {
    let gross = amount_in as int * (10_000 - fee_bps as int);
    let net = input_after_fee(amount_in as int, fee_bps as int);
    let out = constant_product_out(net, reserve_in as int, reserve_out as int);
    if amount_in == 0 {
        Err(DefiError::AmountTooSmall)
    } else if gross > u256_max() || net * reserve_out > u256_max() || reserve_in + net
        > u256_max() || reserve_in + net == 0 {
        Err(DefiError::MathOverflow)
    } else if out < min_out {
        Err(DefiError::Slippage)
    } else if reserve_in + amount_in > u256_max() {
        Err(DefiError::MathOverflow)
    } else {
        Ok((out as u128, (reserve_in + amount_in) as u128, (reserve_out - out) as u128))
    }
}

/// The constant-product output never exceeds the output reserve.
proof fn lemma_out_within_reserve(net: int, reserve_in: int, reserve_out: int)
    requires
        0 <= net,
        0 <= reserve_in,
        0 <= reserve_out,
        0 < reserve_in + net,
    ensures
        0 <= constant_product_out(net, reserve_in, reserve_out) <= reserve_out,
{
    assert(net * reserve_out <= reserve_out * (reserve_in + net)) by (nonlinear_arith)
        requires 0 <= net, 0 <= reserve_in, 0 <= reserve_out;
    assert(0 <= net * reserve_out) by (nonlinear_arith)
        requires 0 <= net, 0 <= reserve_out;
    lemma_div_at_most(net * reserve_out, reserve_in + net, reserve_out);
    lemma_div_bounds(net * reserve_out, reserve_in + net);
}

/// Swaps exactly `amount_in` into a constant-product pool, charging `fee_bps`
/// on the input and keeping the whole input, fee included, in `reserve_in`.
///
/// Returns `(amount_out, new_reserve_in, new_reserve_out)`. The output never
/// exceeds `reserve_out`, so the defensive `InsufficientLiquidity` check on the
/// new output reserve is proved never to fire.
pub fn swap_exact_in(
    amount_in: U256,
    reserve_in: U256,
    reserve_out: U256,
    fee_bps: u32,
    min_out: U256,
) -> (r: Result<(U256, U256, U256), DefiError>)
    requires
        fee_bps <= 10_000,
    ensures
        r == swap_exact_in_outcome(amount_in, reserve_in, reserve_out, fee_bps, min_out),
{
    if amount_in == 0 {
        return Err(DefiError::AmountTooSmall);
    }
    let gross = amount_in.checked_mul((10_000 - fee_bps) as u128).ok_or(DefiError::MathOverflow)?;
    let net = gross / BPS_DENOMINATOR;
    let numerator = net.checked_mul(reserve_out).ok_or(DefiError::MathOverflow)?;
    let denominator = reserve_in.checked_add(net).ok_or(DefiError::MathOverflow)?;
    let amount_out = numerator.checked_div(denominator).ok_or(DefiError::MathOverflow)?;
    if amount_out < min_out {
        return Err(DefiError::Slippage);
    }
    let new_in = reserve_in.checked_add(amount_in).ok_or(DefiError::MathOverflow)?;
    proof {
        lemma_out_within_reserve(net as int, reserve_in as int, reserve_out as int);
    }
    let new_out = reserve_out.checked_sub(amount_out).ok_or(DefiError::InsufficientLiquidity)?;
    Ok((amount_out, new_in, new_out))
}

/// A successful swap never lowers the product of the two reserves.
pub proof fn lemma_swap_keeps_product(
    amount_in: u128,
    reserve_in: u128,
    reserve_out: u128,
    fee_bps: u32,
    min_out: u128,
)
    requires
        fee_bps <= 10_000,
    ensures
        swap_exact_in_outcome(amount_in, reserve_in, reserve_out, fee_bps, min_out) matches Ok(
            (_, new_in, new_out),
        ) ==> new_in * new_out >= reserve_in * reserve_out,
{
    let gross = amount_in as int * (10_000 - fee_bps as int);
    let net = input_after_fee(amount_in as int, fee_bps as int);
    let i = reserve_in as int;
    let o = reserve_out as int;
    let a = amount_in as int;
    if let Ok((out, new_in, new_out)) = swap_exact_in_outcome(
        amount_in,
        reserve_in,
        reserve_out,
        fee_bps,
        min_out,
    ) {
        assert(0 <= gross <= a * 10_000) by (nonlinear_arith)
            requires gross == a * (10_000 - fee_bps as int), 0 <= a, 0 <= fee_bps <= 10_000;
        lemma_div_at_most(gross, 10_000, a);
        lemma_div_bounds(gross, 10_000);
        lemma_out_within_reserve(net, i, o);
        let q = out as int;
        lemma_div_bounds(net * o, i + net);
        assert(q * (i + net) <= net * o);
        assert((i + a) * (o - q) >= i * o) by (nonlinear_arith)
            requires q * (i + net) <= net * o, 0 <= net <= a, 0 <= q <= o, 0 <= i;
    }
}

/// With the reserves and fee held fixed, a larger input never yields a smaller
/// output between two successful swaps.
pub proof fn lemma_swap_output_monotone(
    amount_small: u128,
    amount_large: u128,
    reserve_in: u128,
    reserve_out: u128,
    fee_bps: u32,
    min_out_small: u128,
    min_out_large: u128,
)
    requires
        fee_bps <= 10_000,
        amount_small <= amount_large,
    ensures
        swap_exact_in_outcome(amount_small, reserve_in, reserve_out, fee_bps, min_out_small) matches Ok(
            (out_small, _, _),
        ) ==> (swap_exact_in_outcome(
            amount_large,
            reserve_in,
            reserve_out,
            fee_bps,
            min_out_large,
        ) matches Ok((out_large, _, _)) ==> out_small <= out_large),
{
    let s = swap_exact_in_outcome(amount_small, reserve_in, reserve_out, fee_bps, min_out_small);
    let l = swap_exact_in_outcome(amount_large, reserve_in, reserve_out, fee_bps, min_out_large);
    if s is Ok && l is Ok {
        let f = 10_000 - fee_bps as int;
        let g1 = amount_small as int * f;
        let g2 = amount_large as int * f;
        assert(0 <= g1 <= g2) by (nonlinear_arith)
            requires g1 == amount_small as int * f, g2 == amount_large as int * f, 0 <= f,
                amount_small <= amount_large;
        vstd::arithmetic::div_mod::lemma_div_is_ordered(g1, g2, 10_000);
        lemma_div_bounds(g1, 10_000);
        let n1 = input_after_fee(amount_small as int, fee_bps as int);
        let n2 = input_after_fee(amount_large as int, fee_bps as int);
        let i = reserve_in as int;
        let o = reserve_out as int;
        lemma_out_within_reserve(n1, i, o);
        let q = constant_product_out(n1, i, o);
        lemma_div_bounds(n1 * o, i + n1);
        assert(q * (i + n2) <= n2 * o) by (nonlinear_arith)
            requires q * (i + n1) <= n1 * o, 0 <= q <= o, n1 <= n2;
        assert(0 <= n2 * o) by (nonlinear_arith)
            requires 0 <= n2, 0 <= o;
        lemma_div_at_least(n2 * o, i + n2, q);
    }
}

} // verus!
