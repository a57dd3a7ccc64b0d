use dex_pool::error::PoolError;
use dex_pool::full_math::{div_rounding_up, mul_div, mul_div_rounding_up};

#[test]
fn test_mul_div_basic() {
    // Basic test: (10 * 20) / 5 = 40
    assert_eq!(mul_div(10, 20, 5).unwrap(), 40);
}

#[test]
fn test_mul_div_large_numbers() {
    // Test with larger numbers that would overflow u128
    // (2^100 * 2^100) / 2^100 = 2^100
    let large = 1u128 << 100;
    assert_eq!(mul_div(large, large, large).unwrap(), large);
}

#[test]
fn test_mul_div_max_values() {
    // (MAX * MAX) / MAX = MAX
    let max = u128::MAX;
    assert_eq!(mul_div(max, max, max).unwrap(), max);
}

#[test]
fn test_mul_div_zero_numerator() {
    assert_eq!(mul_div(0, 100, 50).unwrap(), 0);
    assert_eq!(mul_div(100, 0, 50).unwrap(), 0);
}

#[test]
fn test_mul_div_rounds_down() {
    // 1 * 1 / 2 = 0 (rounds down)
    assert_eq!(mul_div(1, 1, 2).unwrap(), 0);
    // 3 * 1 / 2 = 1 (rounds down from 1.5)
    assert_eq!(mul_div(3, 1, 2).unwrap(), 1);
    // 5 * 1 / 3 = 1 (rounds down from 1.67)
    assert_eq!(mul_div(5, 1, 3).unwrap(), 1);
}

#[test]
fn test_mul_div_q96_operations() {
    // Simulate Q96 price operations
    let q96 = 1u128 << 96;
    // 1 * Q96 / Q96 = 1
    assert_eq!(mul_div(1, q96, q96).unwrap(), 1);
    // Q96 * Q96 / Q96 = Q96
    assert_eq!(mul_div(q96, q96, q96).unwrap(), q96);
}

#[test]
fn test_mul_div_rounding_up_exact() {
    // Exact division: (10 * 20) / 5 = 40
    assert_eq!(mul_div_rounding_up(10, 20, 5).unwrap(), 40);
}

#[test]
fn test_mul_div_rounding_up_with_remainder() {
    // With remainder: (10 * 3) / 7 = 4.28... -> 5
    assert_eq!(mul_div_rounding_up(10, 3, 7).unwrap(), 5);
    // 1 * 1 / 2 = 0.5 -> 1
    assert_eq!(mul_div_rounding_up(1, 1, 2).unwrap(), 1);
    // 1 * 1 / 3 = 0.33 -> 1
    assert_eq!(mul_div_rounding_up(1, 1, 3).unwrap(), 1);
}

#[test]
fn test_mul_div_rounding_up_large_numbers() {
    let large = 1u128 << 100;
    // (large * large + 1) / large should round up
    assert_eq!(mul_div_rounding_up(large, large, large).unwrap(), large);
}

#[test]
fn test_mul_div_rounding_up_vs_down_difference() {
    // When there's a remainder, rounding up should be exactly 1 more than rounding down
    let result_down = mul_div(7, 11, 13).unwrap();
    let result_up = mul_div_rounding_up(7, 11, 13).unwrap();
    // 7 * 11 = 77, 77 / 13 = 5.923... -> down: 5, up: 6
    assert_eq!(result_down, 5);
    assert_eq!(result_up, 6);
    assert_eq!(result_up - result_down, 1);
}

#[test]
fn test_div_rounding_up_exact() {
    assert_eq!(div_rounding_up(9, 3).unwrap(), 3); // 9/3 = 3 exactly
    assert_eq!(div_rounding_up(100, 10).unwrap(), 10);
}

#[test]
fn test_div_rounding_up_with_remainder() {
    assert_eq!(div_rounding_up(10, 3).unwrap(), 4); // 10/3 = 3.33 -> 4
    assert_eq!(div_rounding_up(11, 3).unwrap(), 4); // 11/3 = 3.67 -> 4
    assert_eq!(div_rounding_up(1, 2).unwrap(), 1); // 1/2 = 0.5 -> 1
}

#[test]
fn test_div_rounding_up_zero_numerator() {
    assert_eq!(div_rounding_up(0, 5).unwrap(), 0);
    assert_eq!(div_rounding_up(0, 1).unwrap(), 0);
}

#[test]
fn test_div_rounding_up_large_numbers() {
    let large = u128::MAX - 1;
    assert_eq!(div_rounding_up(large, large).unwrap(), 1);
    assert_eq!(div_rounding_up(large, 1).unwrap(), large);
}

#[test]
fn test_phantom_overflow_scenario() {
    // Test case from Uniswap v3: should handle phantom overflow
    // When a * b overflows u128 but result fits in u128
    let q128 = 1u128 << 64;
    let a = q128 * 3;
    let b = q128 * 2;
    let denom = q128;
    // (3 * 2^64) * (2 * 2^64) / 2^64 = 6 * 2^64
    let result = mul_div(a, b, denom).unwrap();
    assert_eq!(result, q128 * 6);
}

#[test]
fn test_accuracy_at_large_scale() {
    // Test that we maintain precision with Q96 arithmetic
    let q96 = 1u128 << 96;
    let price = q96 + (q96 / 1000); // 1.001 in Q96
    let amount = 1_000_000_000_000u128; // 1 trillion

    let result = mul_div(amount, price, q96).unwrap();
    // Expected: ~1001000000000 (1 trillion * 1.001)
    // Allow for small rounding error (1 unit tolerance)
    let expected = 1_001_000_000_000u128;
    let diff = if result > expected {
        result - expected
    } else {
        expected - result
    };
    assert!(diff <= 1, "Result should be within 1 of expected");
}

#[test]
fn mul_div_fails_on_zero_denominator() {
    assert_eq!(mul_div(10, 20, 0), Err(PoolError::DivisionByZero));
    assert_eq!(mul_div_rounding_up(10, 20, 0), Err(PoolError::DivisionByZero));
    assert_eq!(div_rounding_up(10, 0), Err(PoolError::DivisionByZero));
}

#[test]
fn mul_div_fails_on_quotient_over_u128() {
    assert_eq!(mul_div(u128::MAX, 2, 1), Err(PoolError::NumericOverflow));
    assert_eq!(mul_div_rounding_up(u128::MAX, 2, 1), Err(PoolError::NumericOverflow));
    assert_eq!(mul_div(u128::MAX, 3, 3), Ok(u128::MAX));
    // the quotient fits rounded down, and not rounded up
    assert_eq!(mul_div(u128::MAX, 2, 2), Ok(u128::MAX));
    assert_eq!(mul_div(u128::MAX, u128::MAX, u128::MAX - 1), Err(PoolError::NumericOverflow));
}

#[test]
fn mul_div_exact_values() {
    assert_eq!(mul_div(1u128 << 127, 6, 4), Ok(3u128 << 126));
    assert_eq!(mul_div(u128::MAX, u128::MAX - 1, u128::MAX), Ok(u128::MAX - 1));
    assert_eq!(mul_div(123456789012345678901234567890, 987654321098765432, 1000000007), Ok(121932630283493383228166344923975655653));
    assert_eq!(mul_div_rounding_up(123456789012345678901234567890, 987654321098765432, 1000000007), Ok(121932630283493383228166344923975655654));
    assert_eq!(div_rounding_up(u128::MAX, 2), Ok(170141183460469231731687303715884105728));
}

#[test]
fn rounding_up_adds_at_most_one() {
    let cases: [(u128, u128, u128); 5] = [
        (7, 11, 13),
        (1, 1, 2),
        (u128::MAX, 7, 9),
        (1u128 << 100, (1u128 << 100) + 1, 1u128 << 75),
        (10, 20, 5),
    ];
    for (a, b, d) in cases {
        let down = mul_div(a, b, d).unwrap();
        let up = mul_div_rounding_up(a, b, d).unwrap();
        assert!(up >= down);
        assert!(up - down <= 1);
    }
}

#[test]
fn mul_div_inverts_multiplication() {
    assert_eq!(mul_div(77, 13, 13), Ok(77));
    assert_eq!(mul_div(77 * 13, 1, 13), Ok(77));
    // multiplying the quotient back misses the product by less than one
    // denominator
    let q = mul_div(1u128 << 90, 3, 7).unwrap();
    assert!(q * 7 <= (1u128 << 90) * 3);
    assert!((1u128 << 90) * 3 < (q + 1) * 7);
}
