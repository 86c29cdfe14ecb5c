use vstd::prelude::*;

verus! {

/// The failures an operation reports; none of them is recovered internally.
#[derive(Debug, Clone, Copy, PartialEq, Eq)]
pub enum DefiError {
    InsufficientLiquidity,
    Slippage,
    OracleStale,
    HealthFactorTooLow,
    AmountTooSmall,
    MathOverflow,
    PositionUnderwater,
    NotRepaidInFlashloan,
}

} // verus!
