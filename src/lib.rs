//! Stateless fixed-point calculators for a constant-product pool and a
//! collateralised lending market.
//!
//! Every operation takes a snapshot of the state it needs as plain integers and
//! returns the next snapshot, or one of the failures of [`DefiError`]. Each
//! public function's contract states its result exactly through an `*_outcome`
//! spec function; the `lemma_*` proof functions state the laws that hold
//! across calls.
mod error;
mod flash;
mod lending;
mod liquidity;
mod math;
mod oracle;
mod rebalance;
mod swap;

pub use error::DefiError;
pub use flash::{flash_loan, flash_loan_expected, settle_flash_loan, settle_flash_loan_outcome};
pub use lending::{
    accrue_interest, accrue_interest_outcome, borrow, lemma_accrual_idempotent,
    lemma_accrual_never_decreases, liquidate, liquidate_at, liquidate_outcome, max_debt,
    LIQUIDATION_MAX_PRICE_AGE,
};
pub use liquidity::{
    add_liquidity_outcome, add_liquidity_proportional, lemma_mint_then_burn_at_most_deposit,
    min_int, remove_liquidity, remove_liquidity_outcome, shares_for,
};
pub use math::{
    floor_sqrt, integer_sqrt, is_floor_sqrt, mul_saturating, saturated_product, saturated_sum,
    u256_max, U256, BPS_DENOMINATOR, E18,
};
pub use oracle::{freshness_outcome, is_fresh, now_ts, OraclePrice};
pub use rebalance::{rebalance_decision, rebalance_to_target, weight_a_bps};
pub use swap::{
    constant_product_out, input_after_fee, lemma_swap_keeps_product, lemma_swap_output_monotone,
    swap_exact_in, swap_exact_in_outcome,
};
