//! Predicates on the state of a pool and on the outcome of its
//! operations, as executable checks.

use vstd::prelude::*;
use crate::constants::{FEE_DENOMINATOR, MAX_SQRT_RATIO, MAX_TICK, MIN_SQRT_RATIO, MIN_TICK};
use crate::liquidity_math::{add_delta_spec, unsigned_abs};
use crate::tick::wrapping_diff;
use crate::types::{PoolConfig, PoolState};

verus! {

/// Whether the price lies strictly inside the price domain.
pub fn price_in_bounds(state: &PoolState) -> (r: bool)
    ensures
        r == (MIN_SQRT_RATIO < state.sqrt_price_x96 < MAX_SQRT_RATIO),
{
    state.sqrt_price_x96 > MIN_SQRT_RATIO && state.sqrt_price_x96 < MAX_SQRT_RATIO
}

/// Whether the tick lies in the tick domain.
pub fn tick_in_bounds(state: &PoolState) -> (r: bool)
    ensures
        r == (MIN_TICK <= state.tick <= MAX_TICK),
{
    state.tick >= MIN_TICK && state.tick <= MAX_TICK
}

/// Whether a tick is within one tick of the tick of the price.
pub fn tick_consistent_with_price(tick: i32, computed_tick_from_price: i32) -> (r: bool)
    ensures
        r == (-1 <= tick - computed_tick_from_price <= 1),
{
    let diff: i64 = tick as i64 - computed_tick_from_price as i64;
    -1 <= diff && diff <= 1
}

/// Liquidity is unsigned, and so never negative.
pub fn liquidity_non_negative(state: &PoolState) -> (r: bool)
    ensures
        r,
{
    state.liquidity >= 0
}

/// Whether a change of liquidity keeps it in range: `add_delta` succeeds
/// on exactly these.
pub fn liquidity_delta_valid(liquidity: u128, delta: i128) -> (r: bool)
    ensures
        r == (0 <= liquidity + delta <= u128::MAX),
        r == add_delta_spec(liquidity, delta) is Ok,
{
    let size = unsigned_abs(delta);
    if delta < 0 {
        liquidity >= size
    } else {
        liquidity.checked_add(size).is_some()
    }
}

/// Whether the gross liquidity of a tick is within the cap per tick.
pub fn tick_liquidity_bounded(tick_liquidity_gross: u128, max_liquidity_per_tick: u128) -> (r:
    bool)
    ensures
        r == (tick_liquidity_gross <= max_liquidity_per_tick),
{
    tick_liquidity_gross <= max_liquidity_per_tick
}

/// Whether a fee growth accumulator moved forward: the difference of
/// the new from the old value, modulo 2^128, is under 2^127.
pub fn fee_growth_monotonic(old_fee_growth: u128, new_fee_growth: u128) -> (r: bool)
    ensures
        r == (wrapping_diff(new_fee_growth, old_fee_growth)
            < 0x8000_0000_0000_0000_0000_0000_0000_0000),
{
    let diff = new_fee_growth.wrapping_sub(old_fee_growth);
    diff < 0x8000_0000_0000_0000_0000_0000_0000_0000
}

/// Whether the fee of a pool is a proper fraction of the input.
pub fn fee_valid(config: &PoolConfig) -> (r: bool)
    ensures
        r == (config.fee < FEE_DENOMINATOR),
{
    config.fee < FEE_DENOMINATOR
}

/// Whether a fee is at most the amount it is taken from.
pub fn fee_bounded_by_input(fee_amount: u128, amount_in: u128) -> (r: bool)
    ensures
        r == (fee_amount <= amount_in),
{
    fee_amount <= amount_in
}

/// The amounts of one step put no constraint on each other that can be
/// told without a price: every combination is consistent.
pub fn swap_amounts_consistent(
    amount_in: u128,
    amount_out: u128,
    fee_amount: u128,
    exact_input: bool,
) -> (r: bool)
    ensures
        r,
{
    true
}

/// Whether the two amounts of a swap do not have the same sign.
pub fn swap_amounts_opposite_signs(amount0: i128, amount1: i128) -> (r: bool)
    ensures
        r == !((amount0 > 0 && amount1 > 0) || (amount0 < 0 && amount1 < 0)),
{
    (amount0 > 0 && amount1 < 0) || (amount0 < 0 && amount1 > 0) || (amount0 == 0 || amount1
        == 0)
}

/// Whether a tick is a multiple of the spacing.
pub fn tick_on_spacing(tick: i32, tick_spacing: i32) -> (r: bool)
    requires
        tick_spacing > 0,
    ensures
        r == (tick as int % tick_spacing as int == 0),
{
    let quotient = crate::tick_bitmap::floor_div(tick, tick_spacing);
    proof {
        vstd::arithmetic::div_mod::lemma_fundamental_div_mod(tick as int, tick_spacing as int);
        assert(tick_spacing as int * (tick as int / tick_spacing as int) == (tick as int
            / tick_spacing as int) * tick_spacing as int) by (nonlinear_arith);
    }
    (quotient as i64) * (tick_spacing as i64) == tick as i64
}

/// Whether two ticks are the ends of a range.
pub fn tick_range_valid(tick_lower: i32, tick_upper: i32) -> (r: bool)
    ensures
        r == (tick_lower < tick_upper),
{
    tick_lower < tick_upper
}

/// Whether the bitmap and the record of a tick agree.
pub fn tick_bitmap_consistent(tick_initialized: bool, bitmap_bit_set: bool) -> (r: bool)
    ensures
        r == (tick_initialized == bitmap_bit_set),
{
    tick_initialized == bitmap_bit_set
}

/// Whether the net liquidity of all ticks together is zero.
pub fn liquidity_net_sums_to_zero(total_liquidity_net: i128) -> (r: bool)
    ensures
        r == (total_liquidity_net == 0),
{
    total_liquidity_net == 0
}

/// Whether the price moved the way the swap goes: not up for token0 in,
/// not down for token1 in.
pub fn swap_direction_consistent(
    zero_for_one: bool,
    sqrt_price_before: u128,
    sqrt_price_after: u128,
) -> (r: bool)
    ensures
        r == (if zero_for_one {
            sqrt_price_after <= sqrt_price_before
        } else {
            sqrt_price_after >= sqrt_price_before
        }),
{
    if zero_for_one {
        sqrt_price_after <= sqrt_price_before
    } else {
        sqrt_price_after >= sqrt_price_before
    }
}

/// Whether the price stayed on the near side of the limit.
pub fn swap_respects_limit(zero_for_one: bool, sqrt_price_after: u128, sqrt_price_limit: u128) -> (r:
    bool)
    ensures
        r == (if zero_for_one {
            sqrt_price_after >= sqrt_price_limit
        } else {
            sqrt_price_after <= sqrt_price_limit
        }),
{
    if zero_for_one {
        sqrt_price_after >= sqrt_price_limit
    } else {
        sqrt_price_after <= sqrt_price_limit
    }
}

/// Whether a swap crossed no more ticks than it may.
pub fn tick_crossings_bounded(ticks_crossed: u32, max_crossings: u32) -> (r: bool)
    ensures
        r == (ticks_crossed <= max_crossings),
{
    ticks_crossed <= max_crossings
}

/// Liquidity of a position is unsigned, and so never negative.
pub fn position_liquidity_valid(position_liquidity: u128) -> (r: bool)
    ensures
        r,
{
    position_liquidity >= 0
}

/// Owed tokens are unsigned, and so never negative.
pub fn tokens_owed_valid(tokens_owed_0: u128, tokens_owed_1: u128) -> (r: bool)
    ensures
        r,
{
    tokens_owed_0 >= 0 && tokens_owed_1 >= 0
}

} // verus!
