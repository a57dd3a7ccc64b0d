use dex_pool::constants::{MAX_SQRT_RATIO, MIN_SQRT_RATIO, Q96};
use dex_pool::error::PoolError;
use dex_pool::sqrt_price_math::{
    get_amount0_delta, get_amount1_delta, get_next_sqrt_price_from_input,
    get_next_sqrt_price_from_output,
};

#[test]
fn test_get_amount0_delta_basic() {
    let sqrt_a = Q96; // sqrt(1) * 2^96
    let sqrt_b = Q96 * 2; // sqrt(4) * 2^96 (approximately)
    let liquidity = 1_000_000_000_000u128; // 1e12

    let amount0 = get_amount0_delta(sqrt_a, sqrt_b, liquidity, false).unwrap();
    assert!(amount0 > 0);
}

#[test]
fn test_get_amount0_delta_order_independent() {
    let sqrt_a = Q96;
    let sqrt_b = Q96 * 11 / 10; // 1.1
    let liquidity = 1_000_000_000_000u128;

    let amount_ab = get_amount0_delta(sqrt_a, sqrt_b, liquidity, false).unwrap();
    let amount_ba = get_amount0_delta(sqrt_b, sqrt_a, liquidity, false).unwrap();

    // Order shouldn't matter
    assert_eq!(amount_ab, amount_ba);
}

#[test]
fn test_get_amount0_delta_zero_range() {
    let sqrt_price = Q96;
    let liquidity = 1_000_000_000_000u128;

    let amount = get_amount0_delta(sqrt_price, sqrt_price, liquidity, false).unwrap();
    assert_eq!(amount, 0, "Zero price range should give zero amount");
}

#[test]
fn test_get_amount0_delta_rounding() {
    let sqrt_a = Q96;
    let sqrt_b = Q96 + Q96 / 100; // Small price change
    let liquidity = 1_000_000_000u128;

    let amount_down = get_amount0_delta(sqrt_a, sqrt_b, liquidity, false).unwrap();
    let amount_up = get_amount0_delta(sqrt_a, sqrt_b, liquidity, true).unwrap();

    // Rounding up should give >= rounding down
    assert!(amount_up >= amount_down);
    // Difference should be at most 1
    assert!(amount_up - amount_down <= 1);
}

#[test]
fn test_get_amount0_delta_large_liquidity() {
    let sqrt_a = Q96;
    let sqrt_b = Q96 * 11 / 10;
    let liquidity = 1_000_000_000_000_000_000u128; // 1e18

    let amount = get_amount0_delta(sqrt_a, sqrt_b, liquidity, false).unwrap();
    assert!(amount > 0);
    // Larger liquidity should give larger amount
    let small_liquidity = 1_000_000_000u128;
    let small_amount = get_amount0_delta(sqrt_a, sqrt_b, small_liquidity, false).unwrap();
    assert!(amount > small_amount);
}

#[test]
fn test_get_amount1_delta_basic() {
    let sqrt_a = Q96;
    let sqrt_b = Q96 * 2;
    let liquidity = 1_000_000_000_000u128;

    let amount1 = get_amount1_delta(sqrt_a, sqrt_b, liquidity, false).unwrap();
    assert!(amount1 > 0);
}

#[test]
fn test_get_amount1_delta_order_independent() {
    let sqrt_a = Q96;
    let sqrt_b = Q96 * 11 / 10;
    let liquidity = 1_000_000_000_000u128;

    let amount_ab = get_amount1_delta(sqrt_a, sqrt_b, liquidity, false).unwrap();
    let amount_ba = get_amount1_delta(sqrt_b, sqrt_a, liquidity, false).unwrap();

    assert_eq!(amount_ab, amount_ba);
}

#[test]
fn test_get_amount1_delta_zero_range() {
    let sqrt_price = Q96;
    let liquidity = 1_000_000_000_000u128;

    let amount = get_amount1_delta(sqrt_price, sqrt_price, liquidity, false).unwrap();
    assert_eq!(amount, 0);
}

#[test]
fn test_get_amount1_delta_rounding() {
    let sqrt_a = Q96;
    let sqrt_b = Q96 + Q96 / 100;
    let liquidity = 1_000_000_000u128;

    let amount_down = get_amount1_delta(sqrt_a, sqrt_b, liquidity, false).unwrap();
    let amount_up = get_amount1_delta(sqrt_a, sqrt_b, liquidity, true).unwrap();

    assert!(amount_up >= amount_down);
    assert!(amount_up - amount_down <= 1);
}

#[test]
fn test_get_next_sqrt_price_from_input_zero_for_one() {
    let sqrt_price = Q96;
    let liquidity = 1_000_000_000_000_000_000u128;
    let amount_in = 1_000_000_000u128;

    let next_sqrt = get_next_sqrt_price_from_input(sqrt_price, liquidity, amount_in, true).unwrap();

    // When selling token0 (zero_for_one), price should decrease
    assert!(next_sqrt < sqrt_price, "zero_for_one should decrease sqrt price");
}

#[test]
fn test_get_next_sqrt_price_from_input_one_for_zero() {
    let sqrt_price = Q96;
    let liquidity = 1_000_000_000_000_000_000u128;
    let amount_in = 1_000_000_000u128;

    let next_sqrt = get_next_sqrt_price_from_input(sqrt_price, liquidity, amount_in, false).unwrap();

    // When selling token1 (one_for_zero), price should increase
    assert!(next_sqrt > sqrt_price, "one_for_zero should increase sqrt price");
}

#[test]
fn test_get_next_sqrt_price_from_input_zero_amount() {
    let sqrt_price = Q96;
    let liquidity = 1_000_000_000_000u128;

    let next_sqrt = get_next_sqrt_price_from_input(sqrt_price, liquidity, 0, true).unwrap();
    assert_eq!(next_sqrt, sqrt_price, "Zero input should not change price");
}

#[test]
fn test_get_next_sqrt_price_from_input_large_amount() {
    let sqrt_price = Q96;
    let liquidity = 1_000_000_000_000_000_000u128;
    let small_amount = 1_000_000u128;
    let large_amount = 1_000_000_000_000u128;

    let next_sqrt_small =
        get_next_sqrt_price_from_input(sqrt_price, liquidity, small_amount, true).unwrap();
    let next_sqrt_large =
        get_next_sqrt_price_from_input(sqrt_price, liquidity, large_amount, true).unwrap();

    // Larger input should move price more
    assert!(next_sqrt_large < next_sqrt_small);
}

#[test]
fn test_get_next_sqrt_price_from_output_zero_for_one() {
    let sqrt_price = Q96;
    let liquidity = 1_000_000_000_000_000_000u128;
    let amount_out = 1_000_000_000u128;

    let next_sqrt = get_next_sqrt_price_from_output(sqrt_price, liquidity, amount_out, true).unwrap();

    // zero_for_one (buying token1) should decrease sqrt price
    assert!(next_sqrt < sqrt_price);
}

#[test]
fn test_get_next_sqrt_price_from_output_one_for_zero() {
    let sqrt_price = Q96;
    let liquidity = 1_000_000_000_000_000_000u128;
    let amount_out = 1_000_000_000u128;

    let next_sqrt = get_next_sqrt_price_from_output(sqrt_price, liquidity, amount_out, false).unwrap();

    // one_for_zero (buying token0) should increase sqrt price
    assert!(next_sqrt > sqrt_price);
}

#[test]
fn test_amount_deltas_inverse_relationship() {
    // For a given price range and liquidity:
    // amount0 = L * (1/sqrt_pa - 1/sqrt_pb)
    // amount1 = L * (sqrt_pb - sqrt_pa)
    // These should be consistent with each other

    let sqrt_a = Q96; // price = 1
    let sqrt_b = Q96 * 12 / 10; // price = 1.44
    let liquidity = 1_000_000_000_000_000u128;

    let amount0 = get_amount0_delta(sqrt_a, sqrt_b, liquidity, false).unwrap();
    let amount1 = get_amount1_delta(sqrt_a, sqrt_b, liquidity, false).unwrap();

    // Both should be positive
    assert!(amount0 > 0);
    assert!(amount1 > 0);

    // For a 20% sqrt price increase (44% price increase),
    // amount1 should be larger than amount0 (more token1 needed)
    // This is because token1 is the quote token at higher prices
    assert!(amount1 > amount0);
}

#[test]
fn test_price_impact_symmetry() {
    // Adding amount0 and then removing the same should return to original price (approximately)
    let sqrt_price = Q96;
    let liquidity = 1_000_000_000_000_000_000u128;
    let amount_in = 1_000_000_000u128;

    // Move price down
    let sqrt_after = get_next_sqrt_price_from_input(sqrt_price, liquidity, amount_in, true).unwrap();

    // Calculate how much amount0 this price move represents
    let amount0_delta = get_amount0_delta(sqrt_after, sqrt_price, liquidity, false).unwrap();

    // Should be approximately equal to amount_in (with some rounding)
    let diff = if amount0_delta > amount_in {
        amount0_delta - amount_in
    } else {
        amount_in - amount0_delta
    };
    // Allow 1% tolerance
    assert!(diff < amount_in / 100, "Amount should be consistent with price move");
}

#[test]
fn test_amounts_at_extreme_prices() {
    let liquidity = 1_000_000_000_000u128;

    // Near minimum price
    let near_min = MIN_SQRT_RATIO * 10;
    let slightly_higher = near_min * 11 / 10;
    let amount0_low = get_amount0_delta(near_min, slightly_higher, liquidity, false).unwrap();
    let amount1_low = get_amount1_delta(near_min, slightly_higher, liquidity, false).unwrap();
    assert!(amount0_low > 0 || amount1_low > 0);

    // Near maximum price
    let near_max = MAX_SQRT_RATIO / 10;
    let slightly_lower = near_max * 9 / 10;
    let amount0_high = get_amount0_delta(slightly_lower, near_max, liquidity, false).unwrap();
    let amount1_high = get_amount1_delta(slightly_lower, near_max, liquidity, false).unwrap();
    assert!(amount0_high > 0 || amount1_high > 0);
}

#[test]
fn test_small_price_movement() {
    let sqrt_price = Q96;
    let liquidity = 1_000_000_000_000_000_000u128;

    // Very small price movement (1 wei of sqrt price)
    let next_sqrt = sqrt_price + 1;
    let amount0 = get_amount0_delta(sqrt_price, next_sqrt, liquidity, true).unwrap();
    let amount1 = get_amount1_delta(sqrt_price, next_sqrt, liquidity, true).unwrap();

    // Should be very small amounts (possibly 0 due to rounding)
    assert!(amount0 <= 1);
    assert!(amount1 <= 1);
}

#[test]
fn amount_deltas_exact_values() {
    let a = Q96;
    let b = Q96 * 11 / 10;
    assert_eq!(get_amount0_delta(a, b, 1000000000000000000, false), Ok(90909090909090909));
    assert_eq!(get_amount0_delta(a, b, 1000000000000000000, true), Ok(90909090909090910));
    assert_eq!(get_amount1_delta(a, b, 1000000000000000000, false), Ok(99999999999999999));
    assert_eq!(get_amount1_delta(a, b, 1000000000000000000, true), Ok(100000000000000000));
    // liquidity over 2^32 keeps all its bits
    assert_eq!(get_amount0_delta(a, a * 4, 1u128 << 100, false), Ok(950737950171172051122527404032));
}

#[test]
fn amount_deltas_fail() {
    assert_eq!(get_amount0_delta(0, Q96, 1000, false), Err(PoolError::NumericUnderflow));
    assert_eq!(get_amount0_delta(1, 1u128 << 100, u128::MAX, false), Err(PoolError::NumericOverflow));
    assert_eq!(get_amount1_delta(0, u128::MAX, u128::MAX, false), Err(PoolError::NumericOverflow));
}

#[test]
fn next_sqrt_price_exact_values() {
    assert_eq!(get_next_sqrt_price_from_input(Q96, 1000000000000000000, 1_000_000_000, true), Ok(79228162435036175158507775178));
    assert_eq!(get_next_sqrt_price_from_input(Q96, 1000000000000000000, 1_000_000_000, false), Ok(79228162593492500107808287929));
    assert_eq!(get_next_sqrt_price_from_output(Q96, 1000000000000000000, 1_000_000_000, true), Ok(79228162435036175079279612742));
    assert_eq!(get_next_sqrt_price_from_output(Q96, 1000000000000000000, 1_000_000_000, false), Ok(79228162593492500187036450524));
}

#[test]
fn next_sqrt_price_fails() {
    assert_eq!(get_next_sqrt_price_from_input(Q96, 0, 1000, true), Err(PoolError::NumericUnderflow));
    assert_eq!(get_next_sqrt_price_from_input(0, 1000, 1000, true), Err(PoolError::NumericUnderflow));
    assert_eq!(get_next_sqrt_price_from_output(0, 1000, 1000, false), Err(PoolError::NumericUnderflow));
    // more token1 out than the pool holds down to a price of zero
    assert_eq!(get_next_sqrt_price_from_output(Q96, 1, 2, true), Err(PoolError::NumericUnderflow));
    // more token0 out than the liquidity backs
    assert_eq!(get_next_sqrt_price_from_output(Q96, 1, 1, false), Err(PoolError::NumericUnderflow));
    // a price over the 128-bit range
    assert_eq!(get_next_sqrt_price_from_input(u128::MAX, 1, u128::MAX, false), Err(PoolError::NumericOverflow));
}
