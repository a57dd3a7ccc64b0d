use dex_pool::constants::{MAX_SQRT_RATIO, MIN_SQRT_RATIO, Q96};
use dex_pool::error::PoolError;
use dex_pool::factory::{DexFactory, FactoryError};
use dex_pool::full_math::{div_rounding_up, mul_div, mul_div_rounding_up};
use dex_pool::liquidity_math::add_delta;
use dex_pool::pool::DexPool;
use dex_pool::sqrt_price_math::{get_amount0_delta, get_next_sqrt_price_from_input};
use dex_pool::storage::{get_tick, PoolStorage};
use dex_pool::swap::validate_swap_params;
use dex_pool::tick::{compute_liquidity_after_update, update};
use dex_pool::tick_math::get_tick_at_sqrt_ratio;
use dex_pool::types::{Address, TickInfo};

fn address(n: u128) -> Address {
    Address { contract: true, hi: 0, lo: n }
}

fn new_factory() -> (DexFactory, Address) {
    let admin = Address { contract: false, hi: 0, lo: 1 };
    let mut factory = DexFactory::new();
    factory.initialize(&admin, admin, [1u8; 32]).unwrap();
    (factory, admin)
}

#[test]
fn test_initialize_twice_fails() {
    let (mut factory, admin) = new_factory();
    assert_eq!(factory.initialize(&admin, admin, [1u8; 32]), Err(FactoryError::AlreadyInitialized));
}

#[test]
fn lib_test_initialize_twice_fails() {
    let mut pool = DexPool::new();
    pool.initialize(address(9), address(2), address(3), 3000u32, 60i32, Q96).unwrap();
    assert_eq!(
        pool.initialize(address(9), address(2), address(3), 3000u32, 60i32, Q96),
        Err(PoolError::AlreadyInitialized)
    );
}

#[test]
fn test_initialize_wrong_token_order() {
    let mut pool = DexPool::new();
    // Pass tokens in wrong order
    assert_eq!(
        pool.initialize(address(9), address(3), address(2), 3000u32, 60i32, Q96),
        Err(PoolError::BadTokenOrder)
    );
}

#[test]
fn test_enable_existing_fee_fails() {
    let (mut factory, admin) = new_factory();
    // Try to enable existing fee tier
    assert_eq!(factory.enable_fee_amount(&admin, 500, 10), Err(FactoryError::FeeAlreadyEnabled));
}

#[test]
fn test_enable_invalid_tick_spacing_zero() {
    let (mut factory, admin) = new_factory();
    assert_eq!(factory.enable_fee_amount(&admin, 100, 0), Err(FactoryError::InvalidTickSpacing));
}

#[test]
fn test_enable_invalid_tick_spacing_too_large() {
    let (mut factory, admin) = new_factory();
    // > 16384
    assert_eq!(factory.enable_fee_amount(&admin, 100, 20000), Err(FactoryError::InvalidTickSpacing));
}

#[test]
fn test_enable_fee_too_high() {
    let (mut factory, admin) = new_factory();
    // Fee >= 100%
    assert_eq!(factory.enable_fee_amount(&admin, 1_000_000, 100), Err(FactoryError::FeeTooHigh));
}

#[test]
fn test_validate_swap_params_zero_amount() {
    assert_eq!(validate_swap_params(0, true, 0, 1000000), Err(PoolError::ZeroAmount));
}

#[test]
fn test_validate_swap_params_invalid_limit_zero_for_one() {
    // For zero_for_one, limit must be < current price
    let current_price = Q96;
    // Limit above current price is invalid for zero_for_one
    assert_eq!(
        validate_swap_params(100, true, current_price + 1, current_price),
        Err(PoolError::BadPriceLimit)
    );
}

#[test]
fn test_validate_swap_params_invalid_limit_one_for_zero() {
    // For one_for_zero, limit must be > current price
    let current_price = Q96;
    // Limit below current price is invalid for one_for_zero
    assert_eq!(
        validate_swap_params(100, false, current_price - 1, current_price),
        Err(PoolError::BadPriceLimit)
    );
}

#[test]
fn test_compute_liquidity_after_update_overflow() {
    assert_eq!(
        compute_liquidity_after_update(0, 0, 1000, false, 500, 0, 0),
        Err(PoolError::LiquidityOverflow)
    );
}

#[test]
fn test_update_exceeds_max_liquidity() {
    let mut store = PoolStorage::new();
    let tick = 0;
    let tick_current = 0;
    let max_liquidity = 1000u128;

    assert_eq!(
        update(&mut store, tick, tick_current, 2000, 0, 0, false, max_liquidity),
        Err(PoolError::LiquidityOverflow)
    );
    assert_eq!(get_tick(&store, tick), TickInfo::new());
}

#[test]
fn test_mul_div_zero_denominator() {
    assert_eq!(mul_div(10, 20, 0), Err(PoolError::DivisionByZero));
}

#[test]
fn test_mul_div_rounding_up_zero_denominator() {
    assert_eq!(mul_div_rounding_up(10, 20, 0), Err(PoolError::DivisionByZero));
}

#[test]
fn test_div_rounding_up_zero_denominator() {
    assert_eq!(div_rounding_up(10, 0), Err(PoolError::DivisionByZero));
}

#[test]
fn test_add_delta_underflow() {
    assert_eq!(add_delta(50, -100), Err(PoolError::LiquidityUnderflow));
}

#[test]
fn test_add_delta_underflow_max_negative() {
    assert_eq!(add_delta(0, -1), Err(PoolError::LiquidityUnderflow));
}

#[test]
fn test_get_amount0_delta_zero_sqrt_ratio() {
    assert_eq!(get_amount0_delta(0, Q96, 1000, false), Err(PoolError::NumericUnderflow));
}

#[test]
fn test_get_next_sqrt_price_from_input_zero_liquidity() {
    assert_eq!(get_next_sqrt_price_from_input(Q96, 0, 1000, true), Err(PoolError::NumericUnderflow));
}

#[test]
fn test_get_next_sqrt_price_from_input_zero_sqrt_price() {
    assert_eq!(get_next_sqrt_price_from_input(0, 1000, 1000, true), Err(PoolError::NumericUnderflow));
}

#[test]
fn test_get_tick_at_sqrt_ratio_below_min() {
    assert_eq!(get_tick_at_sqrt_ratio(MIN_SQRT_RATIO - 1), Err(PoolError::PriceOutOfRange));
}

#[test]
fn test_get_tick_at_sqrt_ratio_at_max() {
    // MAX_SQRT_RATIO is exclusive
    assert_eq!(get_tick_at_sqrt_ratio(MAX_SQRT_RATIO), Err(PoolError::PriceOutOfRange));
}
