use defi::{add_liquidity_proportional, integer_sqrt, mul_saturating, remove_liquidity, swap_exact_in, DefiError};

#[test]
fn swap_reference_trade() {
    assert_eq!(swap_exact_in(1000, 100_000, 100_000, 30, 0), Ok((987, 101_000, 99_013)));
}

#[test]
fn swap_zero_input_is_too_small() {
    assert_eq!(swap_exact_in(0, 100_000, 100_000, 30, 0), Err(DefiError::AmountTooSmall));
}

#[test]
fn swap_below_min_out_is_slippage() {
    assert_eq!(swap_exact_in(1000, 100_000, 100_000, 30, 988), Err(DefiError::Slippage));
    assert_eq!(swap_exact_in(1000, 100_000, 100_000, 30, 987), Ok((987, 101_000, 99_013)));
}

#[test]
fn swap_fee_product_overflow() {
    assert_eq!(swap_exact_in(u128::MAX, 1, 1, 30, 0), Err(DefiError::MathOverflow));
}

#[test]
fn swap_output_product_overflow() {
    assert_eq!(swap_exact_in(u128::MAX / 10_000, 1, u128::MAX, 0, 0), Err(DefiError::MathOverflow));
}

#[test]
fn swap_into_empty_pool_divides_by_zero() {
    assert_eq!(swap_exact_in(1, 0, 1000, 30, 0), Err(DefiError::MathOverflow));
}

#[test]
fn swap_new_reserve_in_overflow() {
    assert_eq!(swap_exact_in(11, u128::MAX - 10, 0, 30, 0), Err(DefiError::MathOverflow));
}

#[test]
fn swap_full_fee_gives_nothing_and_keeps_input() {
    assert_eq!(swap_exact_in(500, 1000, 1000, 10_000, 0), Ok((0, 1500, 1000)));
}

#[test]
fn swap_keeps_product_on_examples() {
    for (amount, rin, rout, fee) in [(1000u128, 100_000u128, 100_000u128, 30u32), (7, 3, 11, 0), (123_456, 999, 1_000_000, 500)] {
        let (_, new_in, new_out) = swap_exact_in(amount, rin, rout, fee, 0).unwrap();
        assert!(new_in * new_out >= rin * rout);
    }
}

#[test]
fn swap_larger_input_gives_no_less() {
    let (small, _, _) = swap_exact_in(1000, 100_000, 100_000, 30, 0).unwrap();
    let (large, _, _) = swap_exact_in(2000, 100_000, 100_000, 30, 0).unwrap();
    assert_eq!(large, 1955);
    assert!(small <= large);
}

#[test]
fn integer_sqrt_values() {
    assert_eq!(integer_sqrt(0), 0);
    assert_eq!(integer_sqrt(1), 1);
    assert_eq!(integer_sqrt(2), 1);
    assert_eq!(integer_sqrt(3), 1);
    assert_eq!(integer_sqrt(4), 2);
    assert_eq!(integer_sqrt(15), 3);
    assert_eq!(integer_sqrt(16), 4);
    assert_eq!(integer_sqrt(40_000), 200);
    assert_eq!(integer_sqrt(u128::MAX), u64::MAX as u128);
}

#[test]
fn mul_saturating_values() {
    assert_eq!(mul_saturating(3, 4), 12);
    assert_eq!(mul_saturating(u128::MAX, 2), u128::MAX);
}

#[test]
fn bootstrap_mint_is_square_root() {
    assert_eq!(add_liquidity_proportional(100, 400, 0, 0, 0), Ok((200, 100, 400, 200)));
}

#[test]
fn bootstrap_mint_of_nothing() {
    assert_eq!(add_liquidity_proportional(0, 400, 0, 0, 0), Ok((0, 0, 400, 0)));
}

#[test]
fn bootstrap_mint_overflow() {
    assert_eq!(add_liquidity_proportional(u128::MAX, 2, 0, 0, 0), Err(DefiError::MathOverflow));
}

#[test]
fn proportional_mint_takes_smaller_side() {
    assert_eq!(add_liquidity_proportional(100, 300, 1000, 2000, 500), Ok((50, 1100, 2300, 550)));
    assert_eq!(add_liquidity_proportional(300, 100, 2000, 1000, 500), Ok((50, 2300, 1100, 550)));
}

#[test]
fn proportional_mint_overflow() {
    assert_eq!(add_liquidity_proportional(u128::MAX, 1, 1, 1, 2), Err(DefiError::MathOverflow));
    assert_eq!(add_liquidity_proportional(1, 1, u128::MAX, 1, 1), Err(DefiError::MathOverflow));
}

#[test]
fn burn_pays_proportionally() {
    assert_eq!(remove_liquidity(50, 1100, 2300, 550), Ok((100, 209, 1000, 2091, 500)));
}

#[test]
fn burn_everything_empties_pool() {
    assert_eq!(remove_liquidity(200, 100, 400, 200), Ok((100, 400, 0, 0, 0)));
}

#[test]
fn burn_nothing_is_too_small() {
    assert_eq!(remove_liquidity(0, 1100, 2300, 550), Err(DefiError::AmountTooSmall));
    assert_eq!(remove_liquidity(5, 1100, 2300, 0), Err(DefiError::AmountTooSmall));
}

#[test]
fn burn_more_than_supply_fails() {
    assert_eq!(remove_liquidity(600, 1100, 2300, 550), Err(DefiError::MathOverflow));
    assert_eq!(remove_liquidity(551, 0, 0, 550), Err(DefiError::MathOverflow));
}

#[test]
fn burn_product_overflow() {
    assert_eq!(remove_liquidity(2, u128::MAX, 1, 4), Err(DefiError::MathOverflow));
}

#[test]
fn mint_then_burn_returns_at_most_deposit() {
    for (a, b, ra, rb, t) in [(100u128, 300u128, 1000u128, 2000u128, 500u128), (100, 400, 0, 0, 0), (7, 13, 3, 5, 11)] {
        let (minted, na, nb, nt) = add_liquidity_proportional(a, b, ra, rb, t).unwrap();
        let (out_a, out_b, _, _, _) = remove_liquidity(minted, na, nb, nt).unwrap();
        assert!(out_a <= a && out_b <= b);
    }
    let (minted, na, nb, nt) = add_liquidity_proportional(100, 300, 1000, 2000, 500).unwrap();
    assert_eq!(remove_liquidity(minted, na, nb, nt), Ok((100, 209, 1000, 2091, 500)));
}
