use vstd::prelude::*;

use crate::error::DefiError;
use crate::math::{mul_saturating, saturated_product, saturated_sum, U256, BPS_DENOMINATOR};

verus! {

/// Asset A's weight in basis points of the total value, the product and the
/// total each clamped to the largest [`U256`]; meaningful when the total is
/// not zero.
pub open spec fn weight_a_bps(value_a: int, value_b: int) -> int {
    saturated_product(value_a, 10_000) / saturated_sum(value_a, value_b)
}

/// What [`rebalance_to_target`] decides: nothing when the pool is empty or
/// asset A's weight lies within `band_bps` of its target, else the direction
/// that moves it back.
pub open spec fn rebalance_decision(
    assets_value_e6: [u128; 2],
    target_bps: [u32; 2],
    band_bps: u32,
) -> Option<&'static str> {
    let a = assets_value_e6[0] as int;
    let b = assets_value_e6[1] as int;
    let current = weight_a_bps(a, b);
    let target = target_bps[0] as int;
    if saturated_sum(a, b) == 0 {
        None
    } else if current - target <= band_bps && target - current <= band_bps {
        None
    } else if current > target {
        Some("sell A for B")
    } else {
        Some("buy A with B")
    }
}

/// Decides whether a two-asset vault should trade back toward its target
/// weights, and in which direction; it computes no trade size.
pub fn rebalance_to_target(assets_value_e6: [U256; 2], target_bps: [u32; 2], band_bps: u32) -> (r:
    Result<Option<&'static str>, DefiError>)
    ensures
        r == Ok::<Option<&'static str>, DefiError>(
            rebalance_decision(assets_value_e6, target_bps, band_bps),
        ),
{
    let total = assets_value_e6[0].saturating_add(assets_value_e6[1]);
    if total == 0 {
        return Ok(None);
    }
    let current_a_bps = mul_saturating(assets_value_e6[0], BPS_DENOMINATOR) / total;
    let target_a_bps = target_bps[0] as u128;
    let diff = if current_a_bps >= target_a_bps {
        current_a_bps - target_a_bps
    } else {
        target_a_bps - current_a_bps
    };
    if diff <= band_bps as u128 {
        return Ok(None);
    }
    if current_a_bps > target_a_bps {
        Ok(Some("sell A for B"))
    } else {
        Ok(Some("buy A with B"))
    }
}

} // verus!
