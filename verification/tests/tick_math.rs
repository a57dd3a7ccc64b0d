use dex_pool::constants::{MAX_SQRT_RATIO, MAX_TICK, MIN_SQRT_RATIO, MIN_TICK, Q96};
use dex_pool::error::PoolError;
use dex_pool::full_math::mul_div;
use dex_pool::tick_math::{get_sqrt_ratio_at_tick, get_tick_at_sqrt_ratio};

#[test]
fn test_get_sqrt_ratio_at_tick_zero() {
    // At tick 0, price = 1, sqrt(price) = 1
    // sqrtPriceX96 = 1 * 2^96 ≈ 79228162514264337593543950336
    let sqrt_price = get_sqrt_ratio_at_tick(0);
    // Allow some tolerance due to approximations
    let expected = Q96;
    let diff = if sqrt_price > expected {
        sqrt_price - expected
    } else {
        expected - sqrt_price
    };
    assert!(diff < expected / 1000, "tick 0 should give sqrt_price ≈ 2^96");
}

#[test]
fn test_get_sqrt_ratio_at_tick_positive() {
    // Positive ticks should give sqrt price > Q96 (price > 1)
    let sqrt_100 = get_sqrt_ratio_at_tick(100);
    let sqrt_1000 = get_sqrt_ratio_at_tick(1000);
    let sqrt_10000 = get_sqrt_ratio_at_tick(10000);

    assert!(sqrt_100 > Q96, "tick 100 should give sqrt_price > Q96");
    assert!(sqrt_1000 > sqrt_100, "sqrt_price should increase with tick");
    assert!(sqrt_10000 > sqrt_1000, "sqrt_price should increase with tick");
}

#[test]
fn test_get_sqrt_ratio_at_tick_negative() {
    // Negative ticks should give sqrt price < Q96 (price < 1)
    let sqrt_neg_100 = get_sqrt_ratio_at_tick(-100);
    let sqrt_neg_1000 = get_sqrt_ratio_at_tick(-1000);
    let sqrt_neg_10000 = get_sqrt_ratio_at_tick(-10000);

    assert!(sqrt_neg_100 < Q96, "tick -100 should give sqrt_price < Q96");
    assert!(sqrt_neg_1000 < sqrt_neg_100, "sqrt_price should decrease with lower tick");
    assert!(sqrt_neg_10000 < sqrt_neg_1000, "sqrt_price should decrease with lower tick");
}

#[test]
fn test_get_sqrt_ratio_at_tick_symmetric() {
    // sqrt(1.0001^n) * sqrt(1.0001^-n) = 1, so the product of the two
    // prices over Q96 is close to Q96
    let sqrt_100 = get_sqrt_ratio_at_tick(100);
    let sqrt_neg_100 = get_sqrt_ratio_at_tick(-100);
    let result = mul_div(sqrt_100, sqrt_neg_100, Q96).unwrap();

    // Allow 1% tolerance
    let diff = if result > Q96 { result - Q96 } else { Q96 - result };
    assert!(diff < Q96 / 100, "symmetric ticks should have product ≈ Q96^2");
}

#[test]
fn test_get_sqrt_ratio_at_tick_monotonic() {
    // sqrt price should be strictly increasing with tick
    let mut prev_sqrt = get_sqrt_ratio_at_tick(-10000);
    for tick in (-9999..=10000).step_by(100) {
        let sqrt = get_sqrt_ratio_at_tick(tick);
        assert!(sqrt > prev_sqrt, "sqrt_price should be monotonically increasing");
        prev_sqrt = sqrt;
    }
}

#[test]
fn test_tick_bounds_min() {
    let min_sqrt = get_sqrt_ratio_at_tick(MIN_TICK);
    assert!(min_sqrt >= MIN_SQRT_RATIO);
    assert!(min_sqrt < Q96 / 1000, "MIN_TICK should give very small sqrt price");
}

#[test]
fn test_tick_bounds_max() {
    let max_sqrt = get_sqrt_ratio_at_tick(MAX_TICK);
    assert!(max_sqrt <= MAX_SQRT_RATIO);
    assert!(max_sqrt > Q96 * 1000, "MAX_TICK should give very large sqrt price");
}

#[test]
fn test_get_tick_at_sqrt_ratio_q96() {
    // Q96 represents sqrt(1), so tick should be 0
    let tick = get_tick_at_sqrt_ratio(Q96).unwrap();
    assert!(tick.abs() <= 1, "tick at Q96 should be ~0");
}

#[test]
fn test_get_tick_at_sqrt_ratio_roundtrip() {
    // Test roundtrip at various ticks
    for tick in [-100000, -10000, -1000, -100, 0, 100, 1000, 10000, 100000] {
        if tick < MIN_TICK || tick > MAX_TICK {
            continue;
        }
        let sqrt_price = get_sqrt_ratio_at_tick(tick);
        let recovered_tick = get_tick_at_sqrt_ratio(sqrt_price).unwrap();
        // Due to rounding, the recovered tick might be off by 1
        assert!(
            (recovered_tick - tick).abs() <= 1,
            "tick {} should roundtrip, got {}",
            tick,
            recovered_tick
        );
    }
}

#[test]
fn test_get_tick_at_sqrt_ratio_min() {
    let tick = get_tick_at_sqrt_ratio(MIN_SQRT_RATIO).unwrap();
    assert_eq!(tick, MIN_TICK, "MIN_SQRT_RATIO should give MIN_TICK");
}

#[test]
fn test_get_tick_at_sqrt_ratio_just_above_min() {
    let tick = get_tick_at_sqrt_ratio(MIN_SQRT_RATIO + 1).unwrap();
    // Should still be close to MIN_TICK
    assert!(tick >= MIN_TICK && tick <= MIN_TICK + 10);
}

#[test]
fn test_get_tick_at_sqrt_ratio_just_below_max() {
    let tick = get_tick_at_sqrt_ratio(MAX_SQRT_RATIO - 1).unwrap();
    // Should be close to MAX_TICK
    assert!(tick >= MAX_TICK - 10 && tick <= MAX_TICK);
}

#[test]
fn test_tick_spacing_price_change() {
    // Each tick represents a 0.01% (1 basis point) price change
    // So 100 ticks ≈ 1% price change
    let sqrt_0 = get_sqrt_ratio_at_tick(0);
    let sqrt_100 = get_sqrt_ratio_at_tick(100);

    // Price ratio = (sqrt_100 / sqrt_0)^2
    // 100 ticks = 1.0001^100 ≈ 1.01005 (about 1.005% increase)
    let ratio_u128 = mul_div(sqrt_100, Q96, sqrt_0).unwrap();

    // Expected ratio for 100 ticks: sqrt(1.0001^100) ≈ 1.005 in Q96
    // = Q96 * 1.005 ≈ Q96 + Q96/200
    let expected_min = Q96 + Q96 / 250;
    let expected_max = Q96 + Q96 / 150;
    assert!(
        ratio_u128 > expected_min && ratio_u128 < expected_max,
        "100 ticks should be ~0.5% sqrt price change"
    );
}

#[test]
fn test_common_fee_tier_tick_spacings() {
    // Test that tick spacings for common fee tiers work correctly
    // 0.05% fee: tick spacing 10
    // 0.3% fee: tick spacing 60
    // 1% fee: tick spacing 200

    for spacing in [10, 60, 200] {
        let sqrt_0 = get_sqrt_ratio_at_tick(0);
        let sqrt_spacing = get_sqrt_ratio_at_tick(spacing);

        // Should be able to compute valid prices at each tick spacing
        assert!(sqrt_spacing > sqrt_0);
        assert!(sqrt_spacing > Q96);
    }
}

#[test]
fn test_known_tick_values() {
    // These are approximations since we use a simplified implementation

    // At tick 0, sqrt price = 2^96
    let sqrt_0 = get_sqrt_ratio_at_tick(0);
    let diff = if sqrt_0 > Q96 { sqrt_0 - Q96 } else { Q96 - sqrt_0 };
    assert!(diff < Q96 / 100, "tick 0 price within 1%");

    // At tick 6931 (~69.3% of 10000), sqrt price ≈ sqrt(2) * Q96
    // Because 1.0001^6931 ≈ 2, so sqrt(2) ≈ 1.414
    let sqrt_6931 = get_sqrt_ratio_at_tick(6931);
    let expected_sqrt_2 = Q96 * 1414 / 1000; // Approximate sqrt(2) * Q96
    let diff = if sqrt_6931 > expected_sqrt_2 {
        sqrt_6931 - expected_sqrt_2
    } else {
        expected_sqrt_2 - sqrt_6931
    };
    // Allow 5% tolerance due to approximation
    assert!(diff < expected_sqrt_2 / 20, "tick 6931 should give ~sqrt(2)*Q96");
}

#[test]
fn sqrt_ratio_exact_values() {
    assert_eq!(get_sqrt_ratio_at_tick(-443636), 18447090764788882727);
    assert_eq!(get_sqrt_ratio_at_tick(-443635), 18448013096269411586);
    assert_eq!(get_sqrt_ratio_at_tick(-100000), 533968626430936354154228407);
    assert_eq!(get_sqrt_ratio_at_tick(-887), 75791340164260940293635632489);
    assert_eq!(get_sqrt_ratio_at_tick(-1), 79224201403219477170569942573);
    assert_eq!(get_sqrt_ratio_at_tick(0), 79228162514264337593543950336);
    assert_eq!(get_sqrt_ratio_at_tick(1), 79232123823359799118286999567);
    assert_eq!(get_sqrt_ratio_at_tick(60), 79466191966197645195421774832);
    assert_eq!(get_sqrt_ratio_at_tick(6931), 112040957517951813098925484552);
    assert_eq!(get_sqrt_ratio_at_tick(100000), 11755562826496067164730007768449);
    assert_eq!(get_sqrt_ratio_at_tick(443635), 340258959196860441002220642289651527915);
    assert_eq!(get_sqrt_ratio_at_tick(443636), 340275971719517849884101479065584693833);
}

#[test]
fn ends_of_the_tick_domain_give_the_ends_of_the_price_domain() {
    assert_eq!(get_sqrt_ratio_at_tick(MIN_TICK), MIN_SQRT_RATIO);
    assert_eq!(get_sqrt_ratio_at_tick(MAX_TICK), MAX_SQRT_RATIO);
    assert!(MAX_SQRT_RATIO < u128::MAX);
}

#[test]
fn tick_at_sqrt_ratio_exact_values() {
    assert_eq!(get_tick_at_sqrt_ratio(18447090764788882727), Ok(-443636));
    assert_eq!(get_tick_at_sqrt_ratio(18447090764788882728), Ok(-443636));
    assert_eq!(get_tick_at_sqrt_ratio(78833030112140176575862854577), Ok(-101));
    assert_eq!(get_tick_at_sqrt_ratio(78833030112140176575862854578), Ok(-100));
    assert_eq!(get_tick_at_sqrt_ratio(79228162514264337593543950335), Ok(-1));
    assert_eq!(get_tick_at_sqrt_ratio(79228162514264337593543950336), Ok(0));
    assert_eq!(get_tick_at_sqrt_ratio(79228162514264337593543950337), Ok(0));
    assert_eq!(get_tick_at_sqrt_ratio(112040957517951813098925484552), Ok(6931));
    assert_eq!(get_tick_at_sqrt_ratio(112040957517951813098925496897), Ok(6931));
    assert_eq!(get_tick_at_sqrt_ratio(340275971719517849884101479065584693832), Ok(443635));
}

#[test]
fn tick_at_sqrt_ratio_fails_outside_the_price_domain() {
    assert_eq!(get_tick_at_sqrt_ratio(MIN_SQRT_RATIO - 1), Err(PoolError::PriceOutOfRange));
    assert_eq!(get_tick_at_sqrt_ratio(MAX_SQRT_RATIO), Err(PoolError::PriceOutOfRange));
    assert_eq!(get_tick_at_sqrt_ratio(0), Err(PoolError::PriceOutOfRange));
    assert_eq!(get_tick_at_sqrt_ratio(u128::MAX), Err(PoolError::PriceOutOfRange));
}

#[test]
fn sqrt_ratio_is_strictly_increasing() {
    let mut tick = MIN_TICK;
    let mut previous = get_sqrt_ratio_at_tick(tick);
    while tick < MAX_TICK {
        let step = if tick < MIN_TICK + 300 || tick > MAX_TICK - 300 || tick.abs() < 300 { 1 } else { 997 };
        let next_tick = if tick + step > MAX_TICK { MAX_TICK } else { tick + step };
        let next = get_sqrt_ratio_at_tick(next_tick);
        assert!(next > previous, "price at {} is not above the price at {}", next_tick, tick);
        tick = next_tick;
        previous = next;
    }
}

#[test]
fn tick_round_trip_is_exact() {
    for tick in [MIN_TICK, MIN_TICK + 1, -123456, -60, -1, 0, 1, 59, 60, 443000, MAX_TICK - 1] {
        let price = get_sqrt_ratio_at_tick(tick);
        assert_eq!(get_tick_at_sqrt_ratio(price), Ok(tick));
        if tick > MIN_TICK {
            assert_eq!(get_tick_at_sqrt_ratio(price - 1), Ok(tick - 1));
        }
    }
}
