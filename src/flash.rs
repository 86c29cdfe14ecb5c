use vstd::prelude::*;

use crate::error::DefiError;
use crate::math::{saturated_product, saturated_sum, U256, BPS_DENOMINATOR};

verus! {

/// What a flash loan of `amount` must bring back: the amount plus
/// `amount * fee_bps / 10_000`, each step clamped to the largest [`U256`].
pub open spec fn flash_loan_expected(amount: int, fee_bps: int) -> int {
    saturated_sum(amount, saturated_product(amount, fee_bps) / 10_000)
}

/// What [`settle_flash_loan`] returns for the borrower's answer `repaid`.
pub open spec fn settle_flash_loan_outcome(
    pool_liquidity: u128,
    amount: u128,
    fee_bps: u32,
    repaid: Result<u128, DefiError>,
) -> Result<u128, DefiError> {
    match repaid {
        Err(e) => Err(e),
        Ok(back) => if back < flash_loan_expected(amount as int, fee_bps as int) {
            Err(DefiError::NotRepaidInFlashloan)
        } else {
            Ok(saturated_sum(pool_liquidity - amount, back as int) as u128)
        },
    }
}

/// Settles a flash loan of `amount` out of `pool_liquidity` once the borrower
/// has answered with `repaid`.
///
/// A failure of the borrower passes through unchanged; a repayment short of
/// [`flash_loan_expected`] fails with `NotRepaidInFlashloan`; otherwise the new
/// liquidity is the pool less the loan plus all that came back, fee included.
pub fn settle_flash_loan(
    pool_liquidity: U256,
    amount: U256,
    fee_bps: u32,
    repaid: Result<U256, DefiError>,
) -> (r: Result<U256, DefiError>)
    requires
        amount <= pool_liquidity,
    ensures
        r == settle_flash_loan_outcome(pool_liquidity, amount, fee_bps, repaid),
{
    let fee = crate::math::mul_saturating(amount, fee_bps as u128) / BPS_DENOMINATOR;
    let expected = amount.saturating_add(fee);
    let back = repaid?;
    if back < expected {
        return Err(DefiError::NotRepaidInFlashloan);
    }
    Ok((pool_liquidity - amount).saturating_add(back))
}

/// Lends `amount` out of `pool_liquidity` to `callback`, called exactly once
/// with the amount, and settles what it answers by [`settle_flash_loan`].
///
/// Fails with `InsufficientLiquidity`, without calling back, when `amount` is
/// zero or more than the pool holds.
pub fn flash_loan<F>(pool_liquidity: U256, amount: U256, fee_bps: u32, callback: F) -> (r: Result<
    U256,
    DefiError,
>) where F: FnOnce(U256) -> Result<U256, DefiError>
    requires
        0 < amount <= pool_liquidity ==> callback.requires((amount,)),
    ensures
        amount == 0 || amount > pool_liquidity ==> r == Err::<U256, DefiError>(
            DefiError::InsufficientLiquidity,
        ),
        0 < amount <= pool_liquidity ==> exists|repaid: Result<U256, DefiError>|
            callback.ensures((amount,), repaid) && r == #[trigger] settle_flash_loan_outcome(
                pool_liquidity,
                amount,
                fee_bps,
                repaid,
            ),
{
    if amount == 0 || amount > pool_liquidity {
        return Err(DefiError::InsufficientLiquidity);
    }
    let repaid = callback(amount);
    settle_flash_loan(pool_liquidity, amount, fee_bps, repaid)
}

} // verus!
