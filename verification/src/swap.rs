//! The swap: a walk of the price from tick to tick, in steps of
//! constant liquidity, until the specified amount is used up, the price
//! limit is reached, or the cap on crossed ticks halts it.

use vstd::prelude::*;
use crate::constants::{
    MAX_SQRT_RATIO, MAX_TICK, MAX_TICK_CROSSINGS_PER_SWAP, MAX_TICK_SPACING, MIN_SQRT_RATIO,
    MIN_TICK,
};
use crate::error::PoolError;
use crate::liquidity_math::{add_delta, add_delta_spec};
use crate::storage::{get_tick, tick_in, PoolStorage};
use crate::swap_math::{compute_swap_step, compute_swap_step_spec};
use crate::tick::{next_initialized_tick_spec, next_initialized_tick_within_one_word};
use crate::tick_math::{
    get_sqrt_ratio_at_tick, get_tick_at_sqrt_ratio, sqrt_ratio_at_tick_spec,
    tick_at_sqrt_ratio_spec,
};
use crate::types::{SwapState, TickInfo};
use crate::wide::{limb, Wide};

verus! {

/// The price limit that a swap works with: the given one, or for zero
/// the end of the price domain on the side the swap moves to.
pub open spec fn effective_limit(zero_for_one: bool, sqrt_price_limit_x96: u128) -> u128 {
    if sqrt_price_limit_x96 == 0 {
        if zero_for_one {
            (MIN_SQRT_RATIO + 1) as u128
        } else {
            (MAX_SQRT_RATIO - 1) as u128
        }
    } else {
        sqrt_price_limit_x96
    }
}

/// What `validate_swap_params` returns.
pub open spec fn validate_swap_params_spec(
    amount_specified: i128,
    zero_for_one: bool,
    sqrt_price_limit_x96: u128,
    current_sqrt_price_x96: u128,
) -> Result<u128, PoolError> {
    let limit = effective_limit(zero_for_one, sqrt_price_limit_x96);
    if amount_specified == 0 {
        Err(PoolError::ZeroAmount)
    } else if zero_for_one && !(MIN_SQRT_RATIO < limit < current_sqrt_price_x96) {
        Err(PoolError::BadPriceLimit)
    } else if !zero_for_one && !(current_sqrt_price_x96 < limit < MAX_SQRT_RATIO) {
        Err(PoolError::BadPriceLimit)
    } else {
        Ok(limit)
    }
}

/// The target of a step: the price of the next tick, or the limit where
/// that comes first.
pub open spec fn step_target_price_spec(
    sqrt_price_next_tick_x96: u128,
    sqrt_price_limit_x96: u128,
    zero_for_one: bool,
) -> u128 {
    if zero_for_one {
        if sqrt_price_next_tick_x96 < sqrt_price_limit_x96 {
            sqrt_price_limit_x96
        } else {
            sqrt_price_next_tick_x96
        }
    } else {
        if sqrt_price_next_tick_x96 > sqrt_price_limit_x96 {
            sqrt_price_limit_x96
        } else {
            sqrt_price_next_tick_x96
        }
    }
}

/// What `update_swap_amounts` returns: an exact-input swap takes the
/// input and the fee off the remaining amount and the output off the
/// calculated one; an exact-output swap adds the output to the
/// remaining amount and the input and the fee to the calculated one.
pub open spec fn update_swap_amounts_spec(
    amount_remaining: i128,
    amount_calculated: i128,
    step_amount_in: u128,
    step_amount_out: u128,
    step_fee_amount: u128,
    exact_input: bool,
) -> Result<(i128, i128), PoolError> {
    let paid = step_amount_in + step_fee_amount;
    let (remaining, calculated) = if exact_input {
        (amount_remaining - paid, amount_calculated - step_amount_out)
    } else {
        (amount_remaining + step_amount_out, amount_calculated + paid)
    };
    if paid <= i128::MAX && step_amount_out <= i128::MAX && i128::MIN <= remaining <= i128::MAX
        && i128::MIN <= calculated <= i128::MAX {
        Ok((remaining as i128, calculated as i128))
    } else {
        Err(PoolError::NumericOverflow)
    }
}

/// What `compute_fee_growth_delta` returns: the fee per unit of
/// liquidity in Q128.128, modulo 2^128.
pub open spec fn fee_growth_delta_spec(fee_amount: u128, liquidity: u128) -> u128 {
    if liquidity > 0 {
        (((fee_amount as int * limb()) / (liquidity as int)) % limb()) as u128
    } else {
        0
    }
}

/// Sum of two fee growth accumulators, modulo 2^128.
pub open spec fn wrapping_sum(a: u128, b: u128) -> u128 {
    if a + b >= limb() {
        (a + b - limb()) as u128
    } else {
        (a + b) as u128
    }
}

/// What `compute_tick_transition` returns.
pub open spec fn tick_transition_spec(
    sqrt_price_x96: u128,
    sqrt_price_next_tick_x96: u128,
    tick_next: i32,
    zero_for_one: bool,
    tick_initialized: bool,
) -> (i32, bool) {
    if sqrt_price_x96 == sqrt_price_next_tick_x96 {
        (
            if zero_for_one {
                (tick_next - 1) as i32
            } else {
                tick_next
            },
            tick_initialized,
        )
    } else {
        (tick_next, false)
    }
}

/// What `compute_final_amounts` returns: the specified token moved by
/// what was used of the specified amount, the other by the calculated
/// amount.
pub open spec fn final_amounts_spec(
    amount_specified: i128,
    amount_remaining: i128,
    amount_calculated: i128,
    zero_for_one: bool,
    exact_input: bool,
) -> (int, int) {
    if zero_for_one == exact_input {
        (amount_specified - amount_remaining, amount_calculated as int)
    } else {
        (amount_calculated as int, amount_specified - amount_remaining)
    }
}

/// What `should_continue_swap` returns.
pub open spec fn should_continue_swap_spec(
    amount_remaining: i128,
    sqrt_price_x96: u128,
    sqrt_price_limit: u128,
    tick_crossings: int,
) -> bool {
    amount_remaining != 0 && sqrt_price_x96 != sqrt_price_limit && tick_crossings
        < MAX_TICK_CROSSINGS_PER_SWAP
}

/// A tick brought into the tick domain.
pub open spec fn clamp_tick(tick: int) -> int {
    if tick < MIN_TICK {
        MIN_TICK as int
    } else if tick > MAX_TICK {
        MAX_TICK as int
    } else {
        tick
    }
}

/// Checks what a caller asks of a swap, and returns the price limit
/// that the swap works with. A limit of zero stands for the end of the
/// price domain on the side the swap moves to. Fails with `ZeroAmount`
/// for an amount of zero, and with `BadPriceLimit` unless the limit
/// lies strictly between the end of the price domain and the current
/// price, on the side the swap moves to.
pub fn validate_swap_params(
    amount_specified: i128,
    zero_for_one: bool,
    sqrt_price_limit_x96: u128,
    current_sqrt_price_x96: u128,
) -> (r: Result<u128, PoolError>)
    ensures
        r == validate_swap_params_spec(
            amount_specified,
            zero_for_one,
            sqrt_price_limit_x96,
            current_sqrt_price_x96,
        ),
{
    if amount_specified == 0 {
        return Err(PoolError::ZeroAmount);
    }
    let sqrt_price_limit = if sqrt_price_limit_x96 == 0 {
        if zero_for_one {
            MIN_SQRT_RATIO + 1
        } else {
            MAX_SQRT_RATIO - 1
        }
    } else {
        sqrt_price_limit_x96
    };
    if zero_for_one {
        if sqrt_price_limit >= current_sqrt_price_x96 || sqrt_price_limit <= MIN_SQRT_RATIO {
            return Err(PoolError::BadPriceLimit);
        }
    } else {
        if sqrt_price_limit <= current_sqrt_price_x96 || sqrt_price_limit >= MAX_SQRT_RATIO {
            return Err(PoolError::BadPriceLimit);
        }
    }
    Ok(sqrt_price_limit)
}

/// The price that a step aims for: the price of the next tick, or the
/// limit where the limit comes first on the way.
pub fn compute_step_target_price(
    sqrt_price_next_tick_x96: u128,
    sqrt_price_limit_x96: u128,
    zero_for_one: bool,
) -> (r: u128)
    ensures
        r == step_target_price_spec(sqrt_price_next_tick_x96, sqrt_price_limit_x96, zero_for_one),
{
    if zero_for_one {
        if sqrt_price_next_tick_x96 < sqrt_price_limit_x96 {
            sqrt_price_limit_x96
        } else {
            sqrt_price_next_tick_x96
        }
    } else {
        if sqrt_price_next_tick_x96 > sqrt_price_limit_x96 {
            sqrt_price_limit_x96
        } else {
            sqrt_price_next_tick_x96
        }
    }
}

/// A step's amount as a signed value.
fn to_signed(amount: u128) -> (r: Option<i128>)
    ensures
        r == (if amount <= i128::MAX {
            Some(amount as i128)
        } else {
            None
        }),
{
    if amount <= i128::MAX as u128 {
        Some(amount as i128)
    } else {
        None
    }
}

/// The remaining and the calculated amount of a swap after a step.
/// Fails where an amount of the step or of the swap leaves the signed
/// 128-bit range.
pub fn update_swap_amounts(
    amount_remaining: i128,
    amount_calculated: i128,
    step_amount_in: u128,
    step_amount_out: u128,
    step_fee_amount: u128,
    exact_input: bool,
) -> (r: Result<(i128, i128), PoolError>)
    ensures
        r == update_swap_amounts_spec(
            amount_remaining,
            amount_calculated,
            step_amount_in,
            step_amount_out,
            step_fee_amount,
            exact_input,
        ),
{
    let paid = match step_amount_in.checked_add(step_fee_amount) {
        Some(sum) => to_signed(sum),
        None => None,
    };
    let out = to_signed(step_amount_out);
    match (paid, out) {
        (Some(paid), Some(out)) => {
            let (remaining, calculated) = if exact_input {
                (amount_remaining.checked_sub(paid), amount_calculated.checked_sub(out))
            } else {
                (amount_remaining.checked_add(out), amount_calculated.checked_add(paid))
            };
            match (remaining, calculated) {
                (Some(remaining), Some(calculated)) => Ok((remaining, calculated)),
                _ => Err(PoolError::NumericOverflow),
            }
        },
        _ => Err(PoolError::NumericOverflow),
    }
}

/// The growth of the fee accumulator that a fee makes: the fee per
/// unit of liquidity in Q128.128, modulo 2^128. Zero where there is no
/// liquidity.
pub fn compute_fee_growth_delta(fee_amount: u128, liquidity: u128) -> (r: u128)
    ensures
        r == fee_growth_delta_spec(fee_amount, liquidity),
{
    if liquidity > 0 {
        let scaled = Wide { hi: fee_amount, lo: 0 };
        let (quotient, _rest) = Wide::div_rem(scaled, &Wide::from_u128(liquidity));
        proof {
            crate::wide::lemma_div_rem_unique(
                quotient@,
                limb(),
                quotient.hi as int,
                quotient.lo as int,
            );
        }
        quotient.lo
    } else {
        0
    }
}

/// The tick after a step, and whether the step crossed an initialized
/// tick: where the price reached the price of the next tick, the tick
/// is the next tick, less one on the way down, and the crossing is the
/// tick's being initialized. Else the next tick is handed back with
/// `false`, and the tick is to be taken from the price.
pub fn compute_tick_transition(
    sqrt_price_x96: u128,
    sqrt_price_next_tick_x96: u128,
    tick_next: i32,
    zero_for_one: bool,
    tick_initialized: bool,
) -> (r: (i32, bool))
    requires
        tick_next > i32::MIN,
    ensures
        r == tick_transition_spec(
            sqrt_price_x96,
            sqrt_price_next_tick_x96,
            tick_next,
            zero_for_one,
            tick_initialized,
        ),
{
    if sqrt_price_x96 == sqrt_price_next_tick_x96 {
        let new_tick = if zero_for_one {
            tick_next - 1
        } else {
            tick_next
        };
        (new_tick, tick_initialized)
    } else {
        (tick_next, false)
    }
}

/// The amounts of token0 and token1 that a swap moved, positive for
/// what the caller pays and negative for what the caller receives.
pub fn compute_final_amounts(
    amount_specified: i128,
    amount_remaining: i128,
    amount_calculated: i128,
    zero_for_one: bool,
    exact_input: bool,
) -> (r: (i128, i128))
    requires
        i128::MIN <= amount_specified - amount_remaining <= i128::MAX,
    ensures
        (r.0 as int, r.1 as int) == final_amounts_spec(
            amount_specified,
            amount_remaining,
            amount_calculated,
            zero_for_one,
            exact_input,
        ),
{
    if zero_for_one == exact_input {
        (amount_specified - amount_remaining, amount_calculated)
    } else {
        (amount_calculated, amount_specified - amount_remaining)
    }
}

/// The state that a swap starts from.
pub fn init_swap_state(
    amount_specified: i128,
    sqrt_price_x96: u128,
    tick: i32,
    liquidity: u128,
    fee_growth_global_x128: u128,
) -> (r: SwapState)
    ensures
        r == (SwapState {
            amount_remaining: amount_specified,
            amount_calculated: 0,
            sqrt_price_x96,
            tick,
            liquidity,
            fee_growth_global_x128,
        }),
{
    SwapState {
        amount_remaining: amount_specified,
        amount_calculated: 0,
        sqrt_price_x96,
        tick,
        liquidity,
        fee_growth_global_x128,
    }
}

/// Whether a swap goes on: something of the amount is left, the price
/// is not at the limit, and the cap on crossed ticks is not reached.
pub fn should_continue_swap(
    amount_remaining: i128,
    sqrt_price_x96: u128,
    sqrt_price_limit: u128,
    tick_crossings: u32,
) -> (r: bool)
    ensures
        r == should_continue_swap_spec(
            amount_remaining,
            sqrt_price_x96,
            sqrt_price_limit,
            tick_crossings as int,
        ),
{
    amount_remaining != 0 && sqrt_price_x96 != sqrt_price_limit && tick_crossings
        < MAX_TICK_CROSSINGS_PER_SWAP
}

/// A step moves the fee growth accumulator forward by the growth of
/// its fee, modulo 2^128; where the fee is under half the liquidity, the
/// growth is under 2^127, so that the accumulator counts as moved
/// forward.
pub proof fn fee_growth_monotonic_after_step(fee_growth: u128, fee_amount: u128, liquidity: u128)
    ensures
        crate::tick::wrapping_diff(
            wrapping_sum(fee_growth, fee_growth_delta_spec(fee_amount, liquidity)),
            fee_growth,
        ) == fee_growth_delta_spec(fee_amount, liquidity),
        2 * fee_amount < liquidity ==> fee_growth_delta_spec(fee_amount, liquidity)
            < 0x8000_0000_0000_0000_0000_0000_0000_0000,
{
    if 2 * fee_amount < liquidity {
        let scaled = fee_amount as int * limb();
        let half = 0x8000_0000_0000_0000_0000_0000_0000_0000int;
        assert(scaled < half * liquidity as int) by (nonlinear_arith)
            requires
                2 * fee_amount as int + 1 <= liquidity as int,
                scaled == fee_amount as int * limb(),
                limb() == 2 * half,
                half > 0,
        ;
        crate::swap_math::lemma_floor_div_under(scaled, liquidity as int, half);
        assert(scaled >= 0) by (nonlinear_arith)
            requires
                scaled == fee_amount as int * limb(),
                fee_amount as int >= 0,
                limb() > 0,
        ;
        vstd::arithmetic::div_mod::lemma_div_pos_is_pos(scaled, liquidity as int);
    }
}

/// What is fixed for the length of a swap.
#[derive(Clone, Copy, Debug, PartialEq, Eq, Structural)]
pub struct SwapSetting {
    /// Whether token0 goes in and the price moves down.
    pub zero_for_one: bool,
    /// Whether the specified amount is the input.
    pub exact_input: bool,
    /// The price at which the swap stops.
    pub sqrt_price_limit: u128,
    /// The fee of the pool.
    pub fee: u32,
    /// The tick spacing of the pool.
    pub tick_spacing: i32,
}

/// The active liquidity after the price crossed a tick: the net
/// liquidity of the tick comes in on the way up and goes out on the way
/// down.
pub open spec fn crossed_liquidity_spec(
    ticks: Map<i32, TickInfo>,
    tick: i32,
    liquidity: u128,
    zero_for_one: bool,
) -> Result<u128, PoolError> {
    let net = tick_in(ticks, tick).liquidity_net;
    if zero_for_one {
        if net == i128::MIN {
            Err(PoolError::LiquidityOverflow)
        } else {
            add_delta_spec(liquidity, (-net) as i128)
        }
    } else {
        add_delta_spec(liquidity, net)
    }
}

/// The tick that a step aims for: the next initialized tick that the
/// bitmap shows within one word, brought into the tick domain; and
/// whether the bitmap shows it as initialized.
pub open spec fn step_next_tick(
    bitmap: Map<i32, u128>,
    setting: SwapSetting,
    tick: i32,
) -> (i32, bool) {
    let found = next_initialized_tick_spec(bitmap, tick, setting.tick_spacing, setting.zero_for_one);
    (clamp_tick(found.0) as i32, found.1)
}

/// One step of a swap: the state after it, and the tick that it
/// crossed, if it crossed one.
#[verifier::opaque]
pub open spec fn swap_step_spec(
    ticks: Map<i32, TickInfo>,
    bitmap: Map<i32, u128>,
    setting: SwapSetting,
    st: SwapState,
) -> Result<(SwapState, Option<i32>), PoolError> {
    let (tick_next, initialized) = step_next_tick(bitmap, setting, st.tick);
    let price_next = sqrt_ratio_at_tick_spec(tick_next as int) as u128;
    let target = step_target_price_spec(price_next, setting.sqrt_price_limit, setting.zero_for_one);
    match compute_swap_step_spec(
        st.sqrt_price_x96,
        target,
        st.liquidity,
        st.amount_remaining,
        setting.fee,
    ) {
        Err(e) => Err(e),
        Ok(step) => match update_swap_amounts_spec(
            st.amount_remaining,
            st.amount_calculated,
            step.amount_in,
            step.amount_out,
            step.fee_amount,
            setting.exact_input,
        ) {
            Err(e) => Err(e),
            Ok((amount_remaining, amount_calculated)) => {
                let price = step.sqrt_ratio_next_x96;
                let (new_tick, should_cross) = tick_transition_spec(
                    price,
                    price_next,
                    tick_next,
                    setting.zero_for_one,
                    initialized,
                );
                let liquidity = if should_cross {
                    crossed_liquidity_spec(ticks, tick_next, st.liquidity, setting.zero_for_one)
                } else {
                    Ok(st.liquidity)
                };
                let tick = if price == price_next {
                    Ok(new_tick)
                } else if price != st.sqrt_price_x96 {
                    tick_at_sqrt_ratio_spec(price)
                } else {
                    Ok(st.tick)
                };
                if liquidity is Err {
                    Err(liquidity->Err_0)
                } else if tick is Err {
                    Err(tick->Err_0)
                } else {
                    Ok(
                        (
                            SwapState {
                                amount_remaining,
                                amount_calculated,
                                sqrt_price_x96: price,
                                tick: tick->Ok_0,
                                liquidity: liquidity->Ok_0,
                                fee_growth_global_x128: wrapping_sum(
                                    st.fee_growth_global_x128,
                                    fee_growth_delta_spec(step.fee_amount, st.liquidity),
                                ),
                            },
                            if should_cross {
                                Some(tick_next)
                            } else {
                                None
                            },
                        ),
                    )
                }
            },
        },
    }
}

/// How far the tick of a swap is from the end of the ticks on the side
/// the swap moves to.
pub open spec fn swap_measure(zero_for_one: bool, tick: i32) -> int {
    if zero_for_one {
        tick - i32::MIN
    } else {
        i32::MAX - tick
    }
}

/// The list of crossed ticks with one more, where there is one.
pub open spec fn with_crossing(crossed: Seq<i32>, crossing: Option<i32>) -> Seq<i32> {
    match crossing {
        Some(tick) => crossed.push(tick),
        None => crossed,
    }
}

/// The steps of a swap from a state on: the state at which the swap
/// ends, and the ticks that it crossed, in the order it crossed them.
/// The swap ends where `should_continue_swap` says so, and after a
/// step that does not move the tick towards the side the swap goes to.
pub open spec fn swap_loop_spec(
    ticks: Map<i32, TickInfo>,
    bitmap: Map<i32, u128>,
    setting: SwapSetting,
    st: SwapState,
    crossed: Seq<i32>,
) -> Result<(SwapState, Seq<i32>), PoolError>
    decreases swap_measure(setting.zero_for_one, st.tick),
{
    if !should_continue_swap_spec(
        st.amount_remaining,
        st.sqrt_price_x96,
        setting.sqrt_price_limit,
        crossed.len() as int,
    ) {
        Ok((st, crossed))
    } else {
        match swap_step_spec(ticks, bitmap, setting, st) {
            Err(e) => Err(e),
            Ok((next, crossing)) => {
                if swap_measure(setting.zero_for_one, next.tick) < swap_measure(
                    setting.zero_for_one,
                    st.tick,
                ) {
                    swap_loop_spec(ticks, bitmap, setting, next, with_crossing(crossed, crossing))
                } else {
                    Ok((next, with_crossing(crossed, crossing)))
                }
            },
        }
    }
}

/// The active liquidity after the price crossed a tick.
fn cross_liquidity(store: &PoolStorage, tick: i32, liquidity: u128, zero_for_one: bool) -> (r:
    Result<u128, PoolError>)
    ensures
        r == crossed_liquidity_spec(store.ticks@, tick, liquidity, zero_for_one),
{
    let liquidity_net = get_tick(store, tick).liquidity_net;
    if zero_for_one {
        if liquidity_net == i128::MIN {
            return Err(PoolError::LiquidityOverflow);
        }
        add_delta(liquidity, -liquidity_net)
    } else {
        add_delta(liquidity, liquidity_net)
    }
}

/// Makes one step of a swap, without touching the store.
fn swap_step(store: &PoolStorage, setting: &SwapSetting, st: &SwapState) -> (r: Result<
    (SwapState, Option<i32>),
    PoolError,
>)
    requires
        MIN_TICK - 1 <= st.tick <= MAX_TICK,
        0 < setting.tick_spacing <= MAX_TICK_SPACING,
        setting.fee < crate::constants::FEE_DENOMINATOR,
    ensures
        r == swap_step_spec(store.ticks@, store.bitmap@, *setting, *st),
{
    proof {
        reveal(swap_step_spec);
    }
    let (found, initialized) = next_initialized_tick_within_one_word(
        store,
        st.tick,
        setting.tick_spacing,
        setting.zero_for_one,
    );
    let tick_next = if found < MIN_TICK {
        MIN_TICK
    } else if found > MAX_TICK {
        MAX_TICK
    } else {
        found
    };
    let sqrt_price_next_x96 = get_sqrt_ratio_at_tick(tick_next);
    let sqrt_ratio_target_x96 = compute_step_target_price(
        sqrt_price_next_x96,
        setting.sqrt_price_limit,
        setting.zero_for_one,
    );
    let step = compute_swap_step(
        st.sqrt_price_x96,
        sqrt_ratio_target_x96,
        st.liquidity,
        st.amount_remaining,
        setting.fee,
    )?;
    let (amount_remaining, amount_calculated) = update_swap_amounts(
        st.amount_remaining,
        st.amount_calculated,
        step.amount_in,
        step.amount_out,
        step.fee_amount,
        setting.exact_input,
    )?;
    let fee_growth_delta = compute_fee_growth_delta(step.fee_amount, st.liquidity);
    let fee_growth_global_x128 = st.fee_growth_global_x128.wrapping_add(fee_growth_delta);
    let sqrt_price_x96 = step.sqrt_ratio_next_x96;
    let (new_tick, should_cross) = compute_tick_transition(
        sqrt_price_x96,
        sqrt_price_next_x96,
        tick_next,
        setting.zero_for_one,
        initialized,
    );
    let liquidity = if should_cross {
        cross_liquidity(store, tick_next, st.liquidity, setting.zero_for_one)?
    } else {
        st.liquidity
    };
    let tick = if sqrt_price_x96 == sqrt_price_next_x96 {
        new_tick
    } else if sqrt_price_x96 != st.sqrt_price_x96 {
        get_tick_at_sqrt_ratio(sqrt_price_x96)?
    } else {
        st.tick
    };
    Ok(
        (
            SwapState {
                amount_remaining,
                amount_calculated,
                sqrt_price_x96,
                tick,
                liquidity,
                fee_growth_global_x128,
            },
            if should_cross {
                Some(tick_next)
            } else {
                None
            },
        ),
    )
}

/// What holds of the state of a swap between its steps: the price lies
/// between the price the swap started at and the limit, strictly inside
/// the price domain, and between the prices of the tick and of the next
/// tick; an exact input is used up from the specified amount towards
/// zero while output accrues, an exact output is filled up towards zero
/// while input accrues.
pub open spec fn swap_state_ok(
    setting: SwapSetting,
    amount_specified: i128,
    start_price: u128,
    st: SwapState,
) -> bool {
    &&& MIN_SQRT_RATIO < setting.sqrt_price_limit < MAX_SQRT_RATIO
    &&& MIN_SQRT_RATIO < st.sqrt_price_x96 < MAX_SQRT_RATIO
    &&& MIN_TICK <= st.tick < MAX_TICK
    &&& sqrt_ratio_at_tick_spec(st.tick as int) <= st.sqrt_price_x96
    &&& st.sqrt_price_x96 <= sqrt_ratio_at_tick_spec(st.tick + 1)
    &&& if setting.zero_for_one {
        setting.sqrt_price_limit <= st.sqrt_price_x96 <= start_price
    } else {
        start_price <= st.sqrt_price_x96 <= setting.sqrt_price_limit
    }
    &&& if setting.exact_input {
        0 <= st.amount_remaining <= amount_specified && st.amount_calculated <= 0
    } else {
        amount_specified <= st.amount_remaining <= 0 && st.amount_calculated >= 0
    }
}

/// A step of a swap keeps what holds of the state of the swap, and a
/// step that ends at the price of the next tick moves the tick towards
/// the side the swap goes to.
pub proof fn lemma_swap_step_keeps(
    ticks: Map<i32, TickInfo>,
    bitmap: Map<i32, u128>,
    setting: SwapSetting,
    amount_specified: i128,
    start_price: u128,
    st: SwapState,
)
    requires
        swap_state_ok(setting, amount_specified, start_price, st),
        st.amount_remaining != 0,
        0 < setting.tick_spacing <= MAX_TICK_SPACING,
        setting.fee < crate::constants::FEE_DENOMINATOR,
        swap_step_spec(ticks, bitmap, setting, st) is Ok,
    ensures
        swap_state_ok(
            setting,
            amount_specified,
            start_price,
            swap_step_spec(ticks, bitmap, setting, st)->Ok_0.0,
        ),
        ({
            let next = swap_step_spec(ticks, bitmap, setting, st)->Ok_0.0;
            let tick_next = step_next_tick(bitmap, setting, st.tick).0;
            next.sqrt_price_x96 == sqrt_ratio_at_tick_spec(tick_next as int) ==> swap_measure(
                setting.zero_for_one,
                next.tick,
            ) < swap_measure(setting.zero_for_one, st.tick)
        }),
{
    reveal(swap_step_spec);
    let zero_for_one = setting.zero_for_one;
    let (tick_next, initialized) = step_next_tick(bitmap, setting, st.tick);
    let price_next = sqrt_ratio_at_tick_spec(tick_next as int) as u128;
    let target = step_target_price_spec(price_next, setting.sqrt_price_limit, zero_for_one);
    let step = compute_swap_step_spec(
        st.sqrt_price_x96,
        target,
        st.liquidity,
        st.amount_remaining,
        setting.fee,
    )->Ok_0;
    let next = swap_step_spec(ticks, bitmap, setting, st)->Ok_0.0;
    let price = step.sqrt_ratio_next_x96;

    crate::tick::lemma_next_initialized_tick(bitmap, st.tick, setting.tick_spacing, zero_for_one);
    crate::tick_math::lemma_sqrt_ratio_is_raw(tick_next as int);
    crate::tick_math::lemma_sqrt_ratio_is_raw(st.tick as int);
    crate::tick_math::lemma_sqrt_ratio_is_raw(st.tick + 1);
    if zero_for_one {
        crate::tick_math::lemma_sqrt_ratio_monotonic(tick_next as int, st.tick as int);
    } else {
        crate::tick_math::lemma_sqrt_ratio_monotonic(st.tick + 1, tick_next as int);
    }
    crate::swap_math::lemma_swap_step_bounds(
        st.sqrt_price_x96,
        target,
        st.liquidity,
        st.amount_remaining,
        setting.fee,
    );
    if st.amount_remaining > 0 {
        crate::swap_math::lemma_swap_step_budget(
            st.sqrt_price_x96,
            target,
            st.liquidity,
            st.amount_remaining,
            setting.fee,
        );
    }
    // the tick after the step
    if price == price_next {
        if zero_for_one {
            assert(tick_next > MIN_TICK);
            crate::tick_math::lemma_sqrt_ratio_is_raw(tick_next - 1);
            crate::tick_math::lemma_sqrt_ratio_monotonic(tick_next - 1, tick_next as int);
        } else {
            assert(tick_next < MAX_TICK);
            crate::tick_math::lemma_sqrt_ratio_is_raw(tick_next + 1);
            crate::tick_math::lemma_sqrt_ratio_monotonic(tick_next as int, tick_next + 1);
        }
    } else if price != st.sqrt_price_x96 {
        crate::tick_math::lemma_tick_at_sqrt_ratio_brackets(price);
        let found = crate::tick_math::largest_tick_at_or_below(price as int, MAX_TICK as int);
        crate::tick_math::lemma_sqrt_ratio_is_raw(found);
        assert(found < MAX_TICK);
        assert(sqrt_ratio_at_tick_spec(found + 1) > price);
    }
}

/// A step of a swap keeps the active liquidity in step with the
/// positions: after the step it is the liquidity of the positions whose
/// range holds the tick after the step.
pub proof fn lemma_swap_step_keeps_liquidity(
    view: crate::model::PoolView,
    setting: SwapSetting,
    amount_specified: i128,
    st: SwapState,
)
    requires
        view.wf(),
        view.config is Some,
        setting.tick_spacing == view.config->Some_0.tick_spacing,
        setting.fee == view.config->Some_0.fee,
        swap_state_ok(setting, amount_specified, view.state->Some_0.sqrt_price_x96, st),
        st.amount_remaining != 0,
        st.liquidity as int == crate::model::in_range_sum(view.positions, st.tick as int),
        swap_step_spec(view.ticks, view.bitmap, setting, st) is Ok,
    ensures
        ({
            let next = swap_step_spec(view.ticks, view.bitmap, setting, st)->Ok_0.0;
            next.liquidity as int == crate::model::in_range_sum(view.positions, next.tick as int)
        }),
{
    reveal(swap_step_spec);
    let zero_for_one = setting.zero_for_one;
    let start_price = view.state->Some_0.sqrt_price_x96;
    let found = next_initialized_tick_spec(view.bitmap, st.tick, setting.tick_spacing, zero_for_one);
    let (tick_next, initialized) = step_next_tick(view.bitmap, setting, st.tick);
    let price_next = sqrt_ratio_at_tick_spec(tick_next as int) as u128;
    let target = step_target_price_spec(price_next, setting.sqrt_price_limit, zero_for_one);
    let step = compute_swap_step_spec(
        st.sqrt_price_x96,
        target,
        st.liquidity,
        st.amount_remaining,
        setting.fee,
    )->Ok_0;
    let next = swap_step_spec(view.ticks, view.bitmap, setting, st)->Ok_0.0;
    let price = step.sqrt_ratio_next_x96;

    lemma_swap_step_keeps(
        view.ticks,
        view.bitmap,
        setting,
        amount_specified,
        start_price,
        st,
    );
    crate::model::lemma_search_finds_nearest(view, st.tick, zero_for_one);
    crate::tick::lemma_next_initialized_tick(view.bitmap, st.tick, setting.tick_spacing, zero_for_one);
    crate::tick_math::lemma_sqrt_ratio_is_raw(tick_next as int);
    crate::tick_math::lemma_sqrt_ratio_is_raw(st.tick as int);
    crate::tick_math::lemma_sqrt_ratio_is_raw(st.tick + 1);
    if zero_for_one {
        crate::tick_math::lemma_sqrt_ratio_monotonic(tick_next as int, st.tick as int);
    } else {
        crate::tick_math::lemma_sqrt_ratio_monotonic(st.tick + 1, tick_next as int);
    }
    crate::swap_math::lemma_swap_step_bounds(
        st.sqrt_price_x96,
        target,
        st.liquidity,
        st.amount_remaining,
        setting.fee,
    );
    crate::model::liquidity_net_bounded_by_gross(view, tick_next);
    if price == price_next {
        // the step ends at the tick it aimed for, which the clamp left
        // as the search found it
        assert(tick_next as int == found.0);
        crate::model::lemma_in_range_across(view, tick_next);
        if zero_for_one {
            crate::model::lemma_in_range_constant(view, tick_next as int, st.tick as int);
        } else {
            crate::model::lemma_in_range_constant(view, st.tick as int, tick_next - 1);
        }
    } else if price != st.sqrt_price_x96 {
        crate::tick_math::lemma_tick_at_sqrt_ratio_brackets(price);
        let landed = crate::tick_math::largest_tick_at_or_below(price as int, MAX_TICK as int);
        crate::tick_math::lemma_sqrt_ratio_is_raw(landed);
        if zero_for_one {
            if landed > st.tick {
                crate::tick_math::lemma_sqrt_ratio_monotonic(st.tick + 1, landed);
            }
            assert(landed >= tick_next as int);
            crate::model::lemma_in_range_constant(view, landed, st.tick as int);
        } else {
            if landed >= tick_next as int {
                crate::tick_math::lemma_sqrt_ratio_monotonic(tick_next as int, landed);
            }
            assert(st.tick as int <= landed < tick_next as int);
            crate::model::lemma_in_range_constant(view, st.tick as int, landed);
        }
    }
}

/// The records of the ticks after the price crossed the listed ticks,
/// in the order of the list.
pub open spec fn ticks_crossed(
    ticks: Map<i32, TickInfo>,
    crossed: Seq<i32>,
    fee_growth_global_0_x128: u128,
    fee_growth_global_1_x128: u128,
) -> Map<i32, TickInfo>
    decreases crossed.len(),
{
    if crossed.len() == 0 {
        ticks
    } else {
        let before = ticks_crossed(
            ticks,
            crossed.drop_last(),
            fee_growth_global_0_x128,
            fee_growth_global_1_x128,
        );
        crate::tick::ticks_with(
            before,
            crossed.last(),
            crate::tick::crossed_tick(
                tick_in(before, crossed.last()),
                fee_growth_global_0_x128,
                fee_growth_global_1_x128,
            ),
        )
    }
}

/// Two maps of ticks agree at a tick on whether the tick is stored, and
/// on its liquidity.
pub open spec fn same_liquidity_at(a: Map<i32, TickInfo>, b: Map<i32, TickInfo>, tick: i32) -> bool {
    &&& a.contains_key(tick) == b.contains_key(tick)
    &&& tick_in(a, tick).liquidity_gross == tick_in(b, tick).liquidity_gross
    &&& tick_in(a, tick).liquidity_net == tick_in(b, tick).liquidity_net
    &&& tick_in(a, tick).initialized == tick_in(b, tick).initialized
}

/// Two maps of ticks store the same ticks, with the same liquidity.
pub open spec fn same_liquidity(a: Map<i32, TickInfo>, b: Map<i32, TickInfo>) -> bool {
    forall|tick: i32| #[trigger] same_liquidity_at(a, b, tick)
}

/// Crossing ticks changes the fee growth that their records keep, and
/// nothing else: the same ticks are stored, with the same liquidity.
pub proof fn lemma_ticks_crossed(
    ticks: Map<i32, TickInfo>,
    crossed: Seq<i32>,
    fee_growth_global_0_x128: u128,
    fee_growth_global_1_x128: u128,
)
    requires
        forall|tick: i32| ticks.contains_key(tick) ==> (#[trigger] ticks[tick]).liquidity_gross > 0,
    ensures
        same_liquidity(
            ticks_crossed(ticks, crossed, fee_growth_global_0_x128, fee_growth_global_1_x128),
            ticks,
        ),
    decreases crossed.len(),
{
    let after = ticks_crossed(ticks, crossed, fee_growth_global_0_x128, fee_growth_global_1_x128);
    if crossed.len() > 0 {
        lemma_ticks_crossed(
            ticks,
            crossed.drop_last(),
            fee_growth_global_0_x128,
            fee_growth_global_1_x128,
        );
        let before = ticks_crossed(
            ticks,
            crossed.drop_last(),
            fee_growth_global_0_x128,
            fee_growth_global_1_x128,
        );
        let last = crossed.last();
        assert forall|tick: i32| #[trigger] same_liquidity_at(after, ticks, tick) by {
            assert(same_liquidity_at(before, ticks, tick));
            assert(same_liquidity_at(before, ticks, last));
            if ticks.contains_key(last) {
                assert(ticks[last].liquidity_gross > 0);
            }
        }
        assert(same_liquidity(after, ticks));
    } else {
        assert(after == ticks);
        assert(same_liquidity(after, ticks));
    }
}

/// Two maps of ticks with the same liquidity have the same net sums.
pub proof fn lemma_same_liquidity_net_sum(
    a: Map<i32, TickInfo>,
    b: Map<i32, TickInfo>,
    lo: int,
    hi: int,
)
    requires
        same_liquidity(a, b),
        i32::MIN <= lo,
        hi <= i32::MAX + 1,
    ensures
        crate::model::net_sum(a, lo, hi) == crate::model::net_sum(b, lo, hi),
    decreases hi - lo,
{
    if hi > lo {
        lemma_same_liquidity_net_sum(a, b, lo, hi - 1);
        assert(same_liquidity_at(a, b, (hi - 1) as i32));
    }
}

/// The state of the pool after a swap that ended in the given state.
pub open spec fn state_after_swap(
    state: crate::types::PoolState,
    zero_for_one: bool,
    st: SwapState,
) -> crate::types::PoolState {
    crate::types::PoolState {
        sqrt_price_x96: st.sqrt_price_x96,
        tick: st.tick,
        liquidity: st.liquidity,
        fee_growth_global_0_x128: if zero_for_one {
            st.fee_growth_global_x128
        } else {
            state.fee_growth_global_0_x128
        },
        fee_growth_global_1_x128: if zero_for_one {
            state.fee_growth_global_1_x128
        } else {
            st.fee_growth_global_x128
        },
        ..state
    }
}

/// What `execute_swap` does to a pool, and the amounts of token0 and
/// token1 that it moves.
pub open spec fn swap_spec(
    view: crate::model::PoolView,
    zero_for_one: bool,
    amount_specified: i128,
    sqrt_price_limit_x96: u128,
) -> Result<(crate::model::PoolView, (i128, i128)), PoolError> {
    match swap_outcome(view, zero_for_one, amount_specified, sqrt_price_limit_x96) {
        Err(e) => Err(e),
        Ok((st, crossed)) => {
            let state = view.state->Some_0;
            let computation = computation_of(zero_for_one, amount_specified, st, crossed);
            Ok(
                (
                    crate::model::PoolView {
                        state: Some(state_after_swap(state, zero_for_one, st)),
                        ticks: ticks_crossed(
                            view.ticks,
                            crossed,
                            state.fee_growth_global_0_x128,
                            state.fee_growth_global_1_x128,
                        ),
                        ..view
                    },
                    (computation.amount0, computation.amount1),
                ),
            )
        },
    }
}

/// A pool that a swap leaves in a state that `swap_state_ok` accepts,
/// with the ticks it crossed, keeps everything that holds of the pool.
pub proof fn lemma_swap_keeps_wf(
    view: crate::model::PoolView,
    setting: SwapSetting,
    amount_specified: i128,
    st: SwapState,
    crossed: Seq<i32>,
)
    requires
        view.wf(),
        view.config is Some,
        swap_state_ok(setting, amount_specified, view.state->Some_0.sqrt_price_x96, st),
        st.liquidity as int == crate::model::in_range_sum(view.positions, st.tick as int),
    ensures
        (crate::model::PoolView {
            state: Some(state_after_swap(view.state->Some_0, setting.zero_for_one, st)),
            ticks: ticks_crossed(
                view.ticks,
                crossed,
                view.state->Some_0.fee_growth_global_0_x128,
                view.state->Some_0.fee_growth_global_1_x128,
            ),
            ..view
        }).wf(),
{
    let state = view.state->Some_0;
    let config = view.config->Some_0;
    let ticks = ticks_crossed(
        view.ticks,
        crossed,
        state.fee_growth_global_0_x128,
        state.fee_growth_global_1_x128,
    );
    assert forall|tick: i32| view.ticks.contains_key(tick) implies (
    #[trigger] view.ticks[tick]).liquidity_gross > 0 by {
        assert(crate::model::tick_wf(tick, view.ticks[tick], config));
    }
    lemma_ticks_crossed(
        view.ticks,
        crossed,
        state.fee_growth_global_0_x128,
        state.fee_growth_global_1_x128,
    );
    lemma_same_liquidity_net_sum(ticks, view.ticks, MIN_TICK as int, MAX_TICK + 1);
    assert forall|tick: i32| ticks.contains_key(tick) implies crate::model::tick_wf(
        tick,
        #[trigger] ticks[tick],
        config,
    ) by {
        assert(same_liquidity_at(ticks, view.ticks, tick));
        assert(crate::model::tick_wf(tick, view.ticks[tick], config));
    }
    assert forall|word_pos: i32, bit: int| 0 <= bit < 128 implies (
    #[trigger] crate::tick_bitmap::bit_set(crate::storage::word_in(view.bitmap, word_pos), bit)
        <==> crate::model::bit_has_tick(ticks, word_pos, bit, config.tick_spacing as int)) by {
        let there = crate::tick_bitmap::position_tick(
            word_pos as int,
            bit,
            config.tick_spacing as int,
        );
        assert(crate::tick_bitmap::bit_set(crate::storage::word_in(view.bitmap, word_pos), bit)
            <==> crate::model::bit_has_tick(
            view.ticks,
            word_pos,
            bit,
            config.tick_spacing as int,
        ));
        if i32::MIN <= there <= i32::MAX {
            assert(same_liquidity_at(ticks, view.ticks, there as i32));
        }
    }
    assert forall|tick: i32|
        {
            &&& (#[trigger] tick_in(ticks, tick)).liquidity_gross as int
                == crate::model::end_sum(view.positions, tick, false) + crate::model::end_sum(
                view.positions,
                tick,
                true,
            )
            &&& tick_in(ticks, tick).liquidity_net as int == crate::model::end_sum(
                view.positions,
                tick,
                false,
            ) - crate::model::end_sum(view.positions, tick, true)
        } by {
        assert(same_liquidity_at(ticks, view.ticks, tick));
        assert(tick_in(view.ticks, tick).liquidity_gross as int == crate::model::end_sum(
            view.positions,
            tick,
            false,
        ) + crate::model::end_sum(view.positions, tick, true));
    }
}

/// The outcome of a swap as `compute_swap` hands it out.
pub open spec fn computation_of(
    zero_for_one: bool,
    amount_specified: i128,
    st: SwapState,
    crossed: Seq<i32>,
) -> crate::types::SwapComputation {
    let amounts = final_amounts_spec(
        amount_specified,
        st.amount_remaining,
        st.amount_calculated,
        zero_for_one,
        amount_specified > 0,
    );
    crate::types::SwapComputation {
        amount0: amounts.0 as i128,
        amount1: amounts.1 as i128,
        sqrt_price_x96: st.sqrt_price_x96,
        tick: st.tick,
        liquidity: st.liquidity,
        fee_growth_global_x128: st.fee_growth_global_x128,
        fee_growth_is_token0: zero_for_one,
        ticks_crossed: crossed.len() as u32,
    }
}

/// The state at which a swap of a pool ends, and the ticks that it
/// crosses; the failure of the swap where it fails.
pub open spec fn swap_outcome(
    view: crate::model::PoolView,
    zero_for_one: bool,
    amount_specified: i128,
    sqrt_price_limit_x96: u128,
) -> Result<(SwapState, Seq<i32>), PoolError> {
    if view.config is None || view.state is None {
        Err(PoolError::NotInitialized)
    } else {
        let config = view.config->Some_0;
        let state = view.state->Some_0;
        match validate_swap_params_spec(
            amount_specified,
            zero_for_one,
            sqrt_price_limit_x96,
            state.sqrt_price_x96,
        ) {
            Err(e) => Err(e),
            Ok(limit) => swap_loop_spec(
                view.ticks,
                view.bitmap,
                SwapSetting {
                    zero_for_one,
                    exact_input: amount_specified > 0,
                    sqrt_price_limit: limit,
                    fee: config.fee,
                    tick_spacing: config.tick_spacing,
                },
                SwapState {
                    amount_remaining: amount_specified,
                    amount_calculated: 0,
                    sqrt_price_x96: state.sqrt_price_x96,
                    tick: state.tick,
                    liquidity: state.liquidity,
                    fee_growth_global_x128: if zero_for_one {
                        state.fee_growth_global_0_x128
                    } else {
                        state.fee_growth_global_1_x128
                    },
                },
                Seq::empty(),
            ),
        }
    }
}

/// Works out a swap against a pool without touching the pool: the
/// amounts that the swap moves, the state that it leaves the pool in,
/// and the ticks that it crosses, in the order it crosses them.
pub fn compute_swap(
    store: &PoolStorage,
    zero_for_one: bool,
    amount_specified: i128,
    sqrt_price_limit_x96: u128,
) -> (r: Result<(crate::types::SwapComputation, Vec<i32>), PoolError>)
    requires
        store@.wf(),
    ensures
        match swap_outcome(store@, zero_for_one, amount_specified, sqrt_price_limit_x96) {
            Err(e) => r == Err::<(crate::types::SwapComputation, Vec<i32>), PoolError>(e),
            Ok((st, crossed)) => {
                &&& r is Ok
                &&& r->Ok_0.0 == computation_of(zero_for_one, amount_specified, st, crossed)
                &&& r->Ok_0.1@ == crossed
                &&& crossed.len() <= MAX_TICK_CROSSINGS_PER_SWAP
                &&& st.liquidity as int == crate::model::in_range_sum(
                    store.positions@,
                    st.tick as int,
                )
                &&& swap_state_ok(
                    SwapSetting {
                        zero_for_one,
                        exact_input: amount_specified > 0,
                        sqrt_price_limit: effective_limit(zero_for_one, sqrt_price_limit_x96),
                        fee: store.config->Some_0.fee,
                        tick_spacing: store.config->Some_0.tick_spacing,
                    },
                    amount_specified,
                    store.state->Some_0.sqrt_price_x96,
                    st,
                )
            },
        },
{
    let config = crate::storage::get_config(store)?;
    let state = crate::storage::get_state(store)?;
    let sqrt_price_limit = validate_swap_params(
        amount_specified,
        zero_for_one,
        sqrt_price_limit_x96,
        state.sqrt_price_x96,
    )?;
    let exact_input = amount_specified > 0;
    let setting = SwapSetting {
        zero_for_one,
        exact_input,
        sqrt_price_limit,
        fee: config.fee,
        tick_spacing: config.tick_spacing,
    };
    let initial_fee_growth = if zero_for_one {
        state.fee_growth_global_0_x128
    } else {
        state.fee_growth_global_1_x128
    };
    let start = init_swap_state(
        amount_specified,
        state.sqrt_price_x96,
        state.tick,
        state.liquidity,
        initial_fee_growth,
    );
    let ghost view = store@;
    let mut st = start;
    let mut crossed: Vec<i32> = Vec::new();
    let mut stalled = false;
    while !stalled && should_continue_swap(
        st.amount_remaining,
        st.sqrt_price_x96,
        sqrt_price_limit,
        crossed.len() as u32,
    )
        invariant
            store@ == view,
            view.wf(),
            view.config == Some(config),
            view.state == Some(state),
            setting == (SwapSetting {
                zero_for_one,
                exact_input: amount_specified > 0,
                sqrt_price_limit,
                fee: config.fee,
                tick_spacing: config.tick_spacing,
            }),
            amount_specified != 0,
            validate_swap_params_spec(
                amount_specified,
                zero_for_one,
                sqrt_price_limit_x96,
                state.sqrt_price_x96,
            ) == Ok::<u128, PoolError>(sqrt_price_limit),
            start == (SwapState {
                amount_remaining: amount_specified,
                amount_calculated: 0,
                sqrt_price_x96: state.sqrt_price_x96,
                tick: state.tick,
                liquidity: state.liquidity,
                fee_growth_global_x128: if zero_for_one {
                    state.fee_growth_global_0_x128
                } else {
                    state.fee_growth_global_1_x128
                },
            }),
            crossed@.len() <= MAX_TICK_CROSSINGS_PER_SWAP,
            swap_state_ok(setting, amount_specified, state.sqrt_price_x96, st),
            st.liquidity as int == crate::model::in_range_sum(view.positions, st.tick as int),
            swap_loop_spec(view.ticks, view.bitmap, setting, start, Seq::empty()) == (if stalled {
                Ok::<(SwapState, Seq<i32>), PoolError>((st, crossed@))
            } else {
                swap_loop_spec(view.ticks, view.bitmap, setting, st, crossed@)
            }),
        decreases
            (if stalled {
                0
            } else {
                swap_measure(zero_for_one, st.tick) + 1
            }),
    {
        let stepped = swap_step(store, &setting, &st);
        proof {
            assert(should_continue_swap_spec(
                st.amount_remaining,
                st.sqrt_price_x96,
                setting.sqrt_price_limit,
                crossed@.len() as int,
            ));
            assert(swap_loop_spec(view.ticks, view.bitmap, setting, st, crossed@) == (
            match swap_step_spec(view.ticks, view.bitmap, setting, st) {
                Err(e) => Err::<(SwapState, Seq<i32>), PoolError>(e),
                Ok((next, crossing)) => if swap_measure(setting.zero_for_one, next.tick)
                    < swap_measure(setting.zero_for_one, st.tick) {
                    swap_loop_spec(
                        view.ticks,
                        view.bitmap,
                        setting,
                        next,
                        with_crossing(crossed@, crossing),
                    )
                } else {
                    Ok((next, with_crossing(crossed@, crossing)))
                },
            }));
        }
        let (next, crossing) = match stepped {
            Ok(stepped) => stepped,
            Err(e) => {
                return Err(e);
            },
        };
        proof {
            lemma_swap_step_keeps(
                view.ticks,
                view.bitmap,
                setting,
                amount_specified,
                state.sqrt_price_x96,
                st,
            );
            lemma_swap_step_keeps_liquidity(view, setting, amount_specified, st);
        }
        match crossing {
            Some(tick) => {
                crossed.push(tick);
            },
            None => {},
        }
        stalled = if zero_for_one {
            next.tick >= st.tick
        } else {
            next.tick <= st.tick
        };
        st = next;
    }
    let (amount0, amount1) = compute_final_amounts(
        amount_specified,
        st.amount_remaining,
        st.amount_calculated,
        zero_for_one,
        exact_input,
    );
    let computation = crate::types::SwapComputation {
        amount0,
        amount1,
        sqrt_price_x96: st.sqrt_price_x96,
        tick: st.tick,
        liquidity: st.liquidity,
        fee_growth_global_x128: st.fee_growth_global_x128,
        fee_growth_is_token0: zero_for_one,
        ticks_crossed: crossed.len() as u32,
    };
    Ok((computation, crossed))
}

/// The state of a pool after a swap with the given outcome.
pub open spec fn state_after_computation(
    state: crate::types::PoolState,
    computation: crate::types::SwapComputation,
) -> crate::types::PoolState {
    crate::types::PoolState {
        sqrt_price_x96: computation.sqrt_price_x96,
        tick: computation.tick,
        liquidity: computation.liquidity,
        fee_growth_global_0_x128: if computation.fee_growth_is_token0 {
            computation.fee_growth_global_x128
        } else {
            state.fee_growth_global_0_x128
        },
        fee_growth_global_1_x128: if computation.fee_growth_is_token0 {
            state.fee_growth_global_1_x128
        } else {
            computation.fee_growth_global_x128
        },
        ..state
    }
}

/// Writes the outcome of a swap to the pool: crosses the ticks that
/// the swap crossed, and sets the state that it ended in.
pub fn apply_swap(
    store: &mut PoolStorage,
    computation: &crate::types::SwapComputation,
    crossed: &Vec<i32>,
)
    requires
        old(store).state is Some,
    ensures
        final(store)@ == (crate::model::PoolView {
            state: Some(state_after_computation(old(store).state->Some_0, *computation)),
            ticks: ticks_crossed(
                old(store)@.ticks,
                crossed@,
                old(store).state->Some_0.fee_growth_global_0_x128,
                old(store).state->Some_0.fee_growth_global_1_x128,
            ),
            ..old(store)@
        }),
{
    let ghost view = store@;
    let state = match store.state {
        Some(state) => state,
        None => {
            return ;
        },
    };
    let mut i: usize = 0;
    while i < crossed.len()
        invariant
            0 <= i <= crossed@.len(),
            store.ticks@ == ticks_crossed(
                view.ticks,
                crossed@.subrange(0, i as int),
                state.fee_growth_global_0_x128,
                state.fee_growth_global_1_x128,
            ),
            store.config == view.config,
            store.state == view.state,
            store.bitmap@ == view.bitmap,
            store.positions@ == view.positions,
        decreases crossed@.len() - i,
    {
        proof {
            assert(crossed@.subrange(0, i + 1).drop_last() =~= crossed@.subrange(0, i as int));
        }
        let _net = crate::tick::cross(
            store,
            crossed[i],
            state.fee_growth_global_0_x128,
            state.fee_growth_global_1_x128,
        );
        i = i + 1;
    }
    proof {
        assert(crossed@.subrange(0, crossed@.len() as int) =~= crossed@);
    }
    let mut next_state = state;
    next_state.sqrt_price_x96 = computation.sqrt_price_x96;
    next_state.tick = computation.tick;
    next_state.liquidity = computation.liquidity;
    if computation.fee_growth_is_token0 {
        next_state.fee_growth_global_0_x128 = computation.fee_growth_global_x128;
    } else {
        next_state.fee_growth_global_1_x128 = computation.fee_growth_global_x128;
    }
    crate::storage::set_state(store, &next_state);
}

/// Swaps token0 for token1, or the other way round for
/// `zero_for_one == false`, against the liquidity of the pool.
///
/// A positive `amount_specified` is the exact amount to put in, a
/// negative one the exact amount to take out. The price moves from tick
/// to tick until the amount is used up, the price limit is reached, or
/// `MAX_TICK_CROSSINGS_PER_SWAP` initialized ticks are crossed; in the
/// last case the swap is filled in part. Returns the amounts of token0
/// and token1 that the swap moved: positive for what the caller pays,
/// negative for what the caller receives. Where the swap fails the
/// store stays as it was.
pub fn execute_swap(
    store: &mut PoolStorage,
    zero_for_one: bool,
    amount_specified: i128,
    sqrt_price_limit_x96: u128,
) -> (r: Result<(i128, i128), PoolError>)
    requires
        old(store)@.wf(),
    ensures
        final(store)@.wf(),
        match swap_spec(old(store)@, zero_for_one, amount_specified, sqrt_price_limit_x96) {
            Err(e) => r == Err::<(i128, i128), PoolError>(e) && *final(store) == *old(store),
            Ok((view, amounts)) => r == Ok::<(i128, i128), PoolError>(amounts) && final(store)@
                == view,
        },
        r is Ok ==> ({
            let before = old(store).state->Some_0;
            let after = final(store).state->Some_0;
            let limit = effective_limit(zero_for_one, sqrt_price_limit_x96);
            let amounts = r->Ok_0;
            if zero_for_one {
                &&& limit <= after.sqrt_price_x96 <= before.sqrt_price_x96
                &&& amounts.0 >= 0
                &&& amounts.1 <= 0
                &&& after.fee_growth_global_1_x128 == before.fee_growth_global_1_x128
            } else {
                &&& before.sqrt_price_x96 <= after.sqrt_price_x96 <= limit
                &&& amounts.0 <= 0
                &&& amounts.1 >= 0
                &&& after.fee_growth_global_0_x128 == before.fee_growth_global_0_x128
            }
        }),
{
    let (computation, crossed) = compute_swap(
        store,
        zero_for_one,
        amount_specified,
        sqrt_price_limit_x96,
    )?;
    commit_swap(
        store,
        zero_for_one,
        amount_specified,
        sqrt_price_limit_x96,
        &computation,
        &crossed,
    );
    Ok((computation.amount0, computation.amount1))
}

/// Writes to the pool the outcome that `compute_swap` worked out for
/// it.
pub fn commit_swap(
    store: &mut PoolStorage,
    zero_for_one: bool,
    amount_specified: i128,
    sqrt_price_limit_x96: u128,
    computation: &crate::types::SwapComputation,
    crossed: &Vec<i32>,
)
    requires
        old(store)@.wf(),
        swap_outcome(old(store)@, zero_for_one, amount_specified, sqrt_price_limit_x96) is Ok,
        ({
            let outcome = swap_outcome(
                old(store)@,
                zero_for_one,
                amount_specified,
                sqrt_price_limit_x96,
            )->Ok_0;
            &&& *computation == computation_of(zero_for_one, amount_specified, outcome.0, outcome.1)
            &&& crossed@ == outcome.1
            &&& outcome.0.liquidity as int == crate::model::in_range_sum(
                old(store).positions@,
                outcome.0.tick as int,
            )
            &&& swap_state_ok(
                SwapSetting {
                    zero_for_one,
                    exact_input: amount_specified > 0,
                    sqrt_price_limit: effective_limit(zero_for_one, sqrt_price_limit_x96),
                    fee: old(store).config->Some_0.fee,
                    tick_spacing: old(store).config->Some_0.tick_spacing,
                },
                amount_specified,
                old(store).state->Some_0.sqrt_price_x96,
                outcome.0,
            )
        }),
    ensures
        final(store)@.wf(),
        final(store)@ == swap_spec(
            old(store)@,
            zero_for_one,
            amount_specified,
            sqrt_price_limit_x96,
        )->Ok_0.0,
{
    proof {
        let outcome = swap_outcome(store@, zero_for_one, amount_specified, sqrt_price_limit_x96)->Ok_0;
        lemma_swap_keeps_wf(
            store@,
            SwapSetting {
                zero_for_one,
                exact_input: amount_specified > 0,
                sqrt_price_limit: effective_limit(zero_for_one, sqrt_price_limit_x96),
                fee: store.config->Some_0.fee,
                tick_spacing: store.config->Some_0.tick_spacing,
            },
            amount_specified,
            outcome.0,
            outcome.1,
        );
    }
    apply_swap(store, computation, crossed);
}

} // verus!
