//! One step of a swap: the move of the price within a range of constant
//! liquidity, towards a target price.

use vstd::prelude::*;
use crate::constants::FEE_DENOMINATOR;
use crate::error::PoolError;
use crate::full_math::{mul_div, mul_div_rounding_up, mul_div_rounding_up_spec, mul_div_spec};
use crate::liquidity_math::{magnitude, unsigned_abs};
use crate::sqrt_price_math::{
    amount0_delta_spec, amount1_delta_spec, get_amount0_delta, get_amount1_delta,
    get_next_sqrt_price_from_input, get_next_sqrt_price_from_output, next_price_from_input_spec,
    next_price_from_output_spec,
};

verus! {

/// The outcome of one swap step.
#[derive(Clone, Copy, Debug, PartialEq, Eq, Structural)]
pub struct SwapStepResult {
    /// The square-root price after the step.
    pub sqrt_ratio_next_x96: u128,
    /// Input token that the step takes, without the fee.
    pub amount_in: u128,
    /// Output token that the step gives.
    pub amount_out: u128,
    /// Fee that the step takes from the input token.
    pub fee_amount: u128,
}

/// Input that a move of the price between `current` and `next` takes,
/// rounded up: token0 on the way down, token1 on the way up.
pub open spec fn input_to_reach(
    current: u128,
    next: u128,
    liquidity: u128,
    zero_for_one: bool,
) -> Result<u128, PoolError> {
    if zero_for_one {
        amount0_delta_spec(next, current, liquidity, true)
    } else {
        amount1_delta_spec(current, next, liquidity, true)
    }
}

/// Output that a move of the price between `current` and `next` gives,
/// rounded down: token1 on the way down, token0 on the way up.
pub open spec fn output_to_reach(
    current: u128,
    next: u128,
    liquidity: u128,
    zero_for_one: bool,
) -> Result<u128, PoolError> {
    if zero_for_one {
        amount1_delta_spec(next, current, liquidity, false)
    } else {
        amount0_delta_spec(current, next, liquidity, false)
    }
}

/// The input amount that is left to move the price once the fee is set
/// aside.
pub open spec fn amount_less_fee(amount_remaining: i128, fee_pips: u32) -> Result<u128, PoolError> {
    mul_div_spec(
        amount_remaining as u128,
        (FEE_DENOMINATOR - fee_pips) as u128,
        FEE_DENOMINATOR as u128,
    )
}

/// The price that the step ends at: the target where the remaining
/// amount carries that far, else the price that the remaining amount
/// reaches.
pub open spec fn step_next_price(
    current: u128,
    target: u128,
    liquidity: u128,
    amount_remaining: i128,
    fee_pips: u32,
) -> Result<u128, PoolError> {
    let zero_for_one = current >= target;
    if amount_remaining >= 0 {
        match amount_less_fee(amount_remaining, fee_pips) {
            Err(e) => Err(e),
            Ok(available) => match input_to_reach(current, target, liquidity, zero_for_one) {
                Err(e) => Err(e),
                Ok(needed) => if available >= needed {
                    Ok(target)
                } else {
                    next_price_from_input_spec(current, liquidity, available, zero_for_one)
                },
            },
        }
    } else {
        match output_to_reach(current, target, liquidity, zero_for_one) {
            Err(e) => Err(e),
            Ok(available) => if magnitude(amount_remaining) >= available {
                Ok(target)
            } else {
                next_price_from_output_spec(
                    current,
                    liquidity,
                    magnitude(amount_remaining),
                    zero_for_one,
                )
            },
        }
    }
}

/// The fee of a step: what is left of the input where the step stops
/// short of its target on an exact-input swap, else the fee rate applied
/// to the input, rounded up.
pub open spec fn step_fee(
    target: u128,
    next: u128,
    amount_in: u128,
    amount_remaining: i128,
    fee_pips: u32,
) -> Result<u128, PoolError> {
    if amount_remaining >= 0 && next != target {
        if amount_remaining < amount_in {
            Err(PoolError::NumericUnderflow)
        } else {
            Ok((amount_remaining - amount_in) as u128)
        }
    } else {
        mul_div_rounding_up_spec(amount_in, fee_pips as u128, (FEE_DENOMINATOR - fee_pips) as u128)
    }
}

/// What `compute_swap_step` returns.
pub open spec fn compute_swap_step_spec(
    current: u128,
    target: u128,
    liquidity: u128,
    amount_remaining: i128,
    fee_pips: u32,
) -> Result<SwapStepResult, PoolError> {
    match step_next_price(current, target, liquidity, amount_remaining, fee_pips) {
        Err(e) => Err(e),
        Ok(next) => match input_to_reach(current, next, liquidity, current >= target) {
            Err(e) => Err(e),
            Ok(amount_in) => match output_to_reach(current, next, liquidity, current >= target) {
                Err(e) => Err(e),
                Ok(produced) => {
                    let amount_out = if amount_remaining < 0 && produced > magnitude(
                        amount_remaining,
                    ) {
                        magnitude(amount_remaining)
                    } else {
                        produced
                    };
                    match step_fee(target, next, amount_in, amount_remaining, fee_pips) {
                        Err(e) => Err(e),
                        Ok(fee_amount) => Ok(
                            SwapStepResult {
                                sqrt_ratio_next_x96: next,
                                amount_in,
                                amount_out,
                                fee_amount,
                            },
                        ),
                    }
                },
            },
        },
    }
}

/// Input that a move of the price between `current` and `next` takes.
fn step_input(current: u128, next: u128, liquidity: u128, zero_for_one: bool) -> (r: Result<
    u128,
    PoolError,
>)
    ensures
        r == input_to_reach(current, next, liquidity, zero_for_one),
{
    if zero_for_one {
        get_amount0_delta(next, current, liquidity, true)
    } else {
        get_amount1_delta(current, next, liquidity, true)
    }
}

/// Output that a move of the price between `current` and `next` gives.
fn step_output(current: u128, next: u128, liquidity: u128, zero_for_one: bool) -> (r: Result<
    u128,
    PoolError,
>)
    ensures
        r == output_to_reach(current, next, liquidity, zero_for_one),
{
    if zero_for_one {
        get_amount1_delta(next, current, liquidity, false)
    } else {
        get_amount0_delta(current, next, liquidity, false)
    }
}

/// Computes one swap step from `sqrt_ratio_current_x96` towards
/// `sqrt_ratio_target_x96`.
///
/// The direction is token0-in when the target is at or under the current
/// price. A remaining amount that is not negative is an exact input, of
/// which the fee is set aside first; a negative one is an exact output.
/// The step ends at the target where the remaining amount carries that
/// far, and where it does not, at the price that the remaining amount
/// reaches.
pub fn compute_swap_step(
    sqrt_ratio_current_x96: u128,
    sqrt_ratio_target_x96: u128,
    liquidity: u128,
    amount_remaining: i128,
    fee_pips: u32,
) -> (r: Result<SwapStepResult, PoolError>)
    requires
        fee_pips < FEE_DENOMINATOR,
    ensures
        r == compute_swap_step_spec(
            sqrt_ratio_current_x96,
            sqrt_ratio_target_x96,
            liquidity,
            amount_remaining,
            fee_pips,
        ),
{
    let zero_for_one = sqrt_ratio_current_x96 >= sqrt_ratio_target_x96;
    let exact_in = amount_remaining >= 0;
    let wanted: u128 = unsigned_abs(amount_remaining);
    let fee_rest: u128 = (FEE_DENOMINATOR - fee_pips) as u128;

    let sqrt_ratio_next_x96: u128 = if exact_in {
        let available = mul_div(wanted, fee_rest, FEE_DENOMINATOR as u128)?;
        let needed = step_input(
            sqrt_ratio_current_x96,
            sqrt_ratio_target_x96,
            liquidity,
            zero_for_one,
        )?;
        if available >= needed {
            sqrt_ratio_target_x96
        } else {
            get_next_sqrt_price_from_input(
                sqrt_ratio_current_x96,
                liquidity,
                available,
                zero_for_one,
            )?
        }
    } else {
        let available = step_output(
            sqrt_ratio_current_x96,
            sqrt_ratio_target_x96,
            liquidity,
            zero_for_one,
        )?;
        if wanted >= available {
            sqrt_ratio_target_x96
        } else {
            get_next_sqrt_price_from_output(
                sqrt_ratio_current_x96,
                liquidity,
                wanted,
                zero_for_one,
            )?
        }
    };

    let amount_in = step_input(
        sqrt_ratio_current_x96,
        sqrt_ratio_next_x96,
        liquidity,
        zero_for_one,
    )?;
    let produced = step_output(
        sqrt_ratio_current_x96,
        sqrt_ratio_next_x96,
        liquidity,
        zero_for_one,
    )?;
    let amount_out = if !exact_in && produced > wanted {
        wanted
    } else {
        produced
    };

    let fee_amount = if exact_in && sqrt_ratio_next_x96 != sqrt_ratio_target_x96 {
        if wanted < amount_in {
            return Err(PoolError::NumericUnderflow);
        }
        wanted - amount_in
    } else {
        mul_div_rounding_up(amount_in, fee_pips as u128, fee_rest)?
    };

    Ok(SwapStepResult { sqrt_ratio_next_x96, amount_in, amount_out, fee_amount })
}

/// `ceil(x / d)` times `d` covers `x`, by less than one `d`.
pub proof fn lemma_ceil_div_covers(x: int, d: int)
    requires
        d > 0,
    ensures
        x <= crate::full_math::ceil_div(x, d) * d < x + d,
{
    vstd::arithmetic::div_mod::lemma_fundamental_div_mod(x, d);
    vstd::arithmetic::div_mod::lemma_mod_bound(x, d);
    let q = x / d;
    assert(d * q == q * d && (q + 1) * d == q * d + d) by (nonlinear_arith);
}

/// `floor(x / d)` times `d` stays under `x`, by less than one `d`.
pub proof fn lemma_floor_div_covers(x: int, d: int)
    requires
        d > 0,
    ensures
        (x / d) * d <= x < (x / d) * d + d,
{
    vstd::arithmetic::div_mod::lemma_fundamental_div_mod(x, d);
    vstd::arithmetic::div_mod::lemma_mod_bound(x, d);
    let q = x / d;
    assert(d * q == q * d) by (nonlinear_arith);
}

/// A value that `c * d` covers has a rounded-up quotient of at most `c`.
pub proof fn lemma_ceil_div_at_most(x: int, d: int, c: int)
    requires
        d > 0,
        x <= c * d,
    ensures
        crate::full_math::ceil_div(x, d) <= c,
{
    lemma_ceil_div_covers(x, d);
    let q = crate::full_math::ceil_div(x, d);
    assert(q <= c) by (nonlinear_arith)
        requires
            q * d < x + d,
            x <= c * d,
            d > 0,
    ;
}

/// A value that covers `c * d` has a quotient of at least `c`.
pub proof fn lemma_floor_div_at_least(x: int, d: int, c: int)
    requires
        d > 0,
        c * d <= x,
    ensures
        c <= x / d,
{
    lemma_floor_div_covers(x, d);
    let q = x / d;
    assert(c <= q) by (nonlinear_arith)
        requires
            x < q * d + d,
            c * d <= x,
            d > 0,
    ;
}

/// A value under `k * d` has a quotient under `k`.
pub proof fn lemma_floor_div_under(x: int, d: int, k: int)
    requires
        d > 0,
        x < k * d,
    ensures
        x / d < k,
{
    lemma_floor_div_covers(x, d);
    let q = x / d;
    assert(q < k) by (nonlinear_arith)
        requires
            q * d <= x,
            x < k * d,
            d > 0,
    ;
}

/// The price that a token0 amount under the amount to the target moves
/// the pool to lies between the target and the current price.
proof fn lemma_token0_in_stays(current: u128, target: u128, liquidity: u128, amount: u128)
    requires
        0 < target <= current,
        amount0_delta_spec(target, current, liquidity, true) is Ok,
        amount < amount0_delta_spec(target, current, liquidity, true)->Ok_0,
        crate::sqrt_price_math::next_price_from_amount0_spec(current, liquidity, amount, true) is Ok,
    ensures
        target < crate::sqrt_price_math::next_price_from_amount0_spec(
            current,
            liquidity,
            amount,
            true,
        )->Ok_0 <= current,
{
    let q96 = crate::constants::Q96 as int;
    let n1 = liquidity as int * q96;
    let c = current as int;
    let t = target as int;
    let a = amount as int;
    if amount != 0 {
        let x = liquidity as int * (c - t) * q96;
        let y = c * t;
        let d = n1 + a * c;
        assert(y > 0 && a * c >= 0 && n1 >= 0 && x == n1 * (c - t) && d > 0) by (nonlinear_arith)
            requires
                0 < t <= c,
                a > 0,
                liquidity as int >= 0,
                q96 > 0,
                x == liquidity as int * (c - t) * q96,
                y == c * t,
                n1 == liquidity as int * q96,
                d == n1 + a * c,
        ;
        lemma_ceil_div_covers(x, y);
        let needed = crate::full_math::ceil_div(x, y);
        assert(a * y < x) by (nonlinear_arith)
            requires
                a + 1 <= needed,
                needed * y < x + y,
                y > 0,
        ;
        assert(t * d < n1 * c && n1 * c <= c * d) by (nonlinear_arith)
            requires
                a * y < x,
                y == c * t,
                x == n1 * (c - t),
                d == n1 + a * c,
                a >= 0,
                c > 0,
        ;
        lemma_ceil_div_at_most(n1 * c, d, c);
        lemma_ceil_div_covers(n1 * c, d);
        let next = crate::full_math::ceil_div(n1 * c, d);
        assert(t < next) by (nonlinear_arith)
            requires
                t * d < n1 * c,
                n1 * c <= next * d,
                d > 0,
        ;
    } else {
        let x = liquidity as int * (c - t) * q96;
        let y = c * t;
        assert(y > 0) by (nonlinear_arith)
            requires
                0 < t <= c,
                y == c * t,
        ;
        assert(c == t ==> x == 0) by (nonlinear_arith)
            requires
                x == liquidity as int * (c - t) * q96,
        ;
    }
}

/// The price that a token0 amount under the amount to the target takes
/// the pool to, on the way up, lies between the current price and the
/// target.
proof fn lemma_token0_out_stays(current: u128, target: u128, liquidity: u128, amount: u128)
    requires
        0 < current <= target,
        amount0_delta_spec(current, target, liquidity, false) is Ok,
        amount < amount0_delta_spec(current, target, liquidity, false)->Ok_0,
        crate::sqrt_price_math::next_price_from_amount0_spec(current, liquidity, amount, false) is Ok,
    ensures
        current <= crate::sqrt_price_math::next_price_from_amount0_spec(
            current,
            liquidity,
            amount,
            false,
        )->Ok_0 <= target,
{
    let q96 = crate::constants::Q96 as int;
    let n1 = liquidity as int * q96;
    let c = current as int;
    let t = target as int;
    let a = amount as int;
    if amount != 0 {
        let x = liquidity as int * (t - c) * q96;
        let y = t * c;
        let d = n1 - a * c;
        assert(y > 0 && x == n1 * (t - c)) by (nonlinear_arith)
            requires
                0 < c <= t,
                x == liquidity as int * (t - c) * q96,
                y == t * c,
                n1 == liquidity as int * q96,
        ;
        lemma_floor_div_covers(x, y);
        let available = x / y;
        assert((a + 1) * y <= x) by (nonlinear_arith)
            requires
                a + 1 <= available,
                available * y <= x,
                y > 0,
        ;
        assert(d > 0);
        assert(n1 * c <= t * d && c * d <= n1 * c) by (nonlinear_arith)
            requires
                (a + 1) * y <= x,
                y == t * c,
                x == n1 * (t - c),
                d == n1 - a * c,
                a >= 0,
                c > 0,
                t >= c,
        ;
        lemma_ceil_div_at_most(n1 * c, d, t);
        lemma_floor_div_at_least(n1 * c, d, c);
    }
}

/// The price that a token1 amount under the amount to the target moves
/// the pool to, on the way up, lies between the current price and the
/// target.
proof fn lemma_token1_in_stays(current: u128, target: u128, liquidity: u128, amount: u128)
    requires
        current <= target,
        amount1_delta_spec(current, target, liquidity, true) is Ok,
        amount < amount1_delta_spec(current, target, liquidity, true)->Ok_0,
        crate::sqrt_price_math::next_price_from_amount1_spec(current, liquidity, amount, true) is Ok,
    ensures
        current <= crate::sqrt_price_math::next_price_from_amount1_spec(
            current,
            liquidity,
            amount,
            true,
        )->Ok_0 < target,
{
    let q96 = crate::constants::Q96 as int;
    let l = liquidity as int;
    let c = current as int;
    let t = target as int;
    let a = amount as int;
    let x = l * (t - c);
    lemma_ceil_div_covers(x, q96);
    let needed = crate::full_math::ceil_div(x, q96);
    assert(a * q96 < (t - c) * l && a * q96 >= 0) by (nonlinear_arith)
        requires
            a + 1 <= needed,
            needed * q96 < x + q96,
            x == l * (t - c),
            q96 > 0,
            a >= 0,
    ;
    lemma_floor_div_under(a * q96, l, t - c);
    vstd::arithmetic::div_mod::lemma_div_pos_is_pos(a * q96, l);
}

/// The price that a token1 amount under the amount to the target takes
/// the pool to, on the way down, lies between the target and the
/// current price.
proof fn lemma_token1_out_stays(current: u128, target: u128, liquidity: u128, amount: u128)
    requires
        target <= current,
        amount1_delta_spec(target, current, liquidity, false) is Ok,
        amount < amount1_delta_spec(target, current, liquidity, false)->Ok_0,
        crate::sqrt_price_math::next_price_from_amount1_spec(current, liquidity, amount, false) is Ok,
    ensures
        target <= crate::sqrt_price_math::next_price_from_amount1_spec(
            current,
            liquidity,
            amount,
            false,
        )->Ok_0 <= current,
{
    let q96 = crate::constants::Q96 as int;
    let l = liquidity as int;
    let c = current as int;
    let t = target as int;
    let a = amount as int;
    let x = l * (c - t);
    lemma_floor_div_covers(x, q96);
    let available = x / q96;
    assert(a * q96 <= (c - t) * l && a * q96 >= 0) by (nonlinear_arith)
        requires
            a + 1 <= available,
            available * q96 <= x,
            x == l * (c - t),
            q96 > 0,
            a >= 0,
    ;
    lemma_ceil_div_at_most(a * q96, l, c - t);
    lemma_ceil_div_covers(a * q96, l);
    let quotient = crate::full_math::ceil_div(a * q96, l);
    assert(quotient >= 0) by (nonlinear_arith)
        requires
            a * q96 <= quotient * l,
            a * q96 >= 0,
            l > 0,
    ;
}

/// A swap step ends between its current price and its target.
pub proof fn lemma_swap_step_bounds(
    current: u128,
    target: u128,
    liquidity: u128,
    amount_remaining: i128,
    fee_pips: u32,
)
    requires
        fee_pips < FEE_DENOMINATOR,
        compute_swap_step_spec(current, target, liquidity, amount_remaining, fee_pips) is Ok,
    ensures
        ({
            let next = compute_swap_step_spec(
                current,
                target,
                liquidity,
                amount_remaining,
                fee_pips,
            )->Ok_0.sqrt_ratio_next_x96;
            if current >= target {
                target <= next <= current
            } else {
                current <= next <= target
            }
        }),
        step_next_price(current, target, liquidity, amount_remaining, fee_pips) == Ok::<
            u128,
            PoolError,
        >(
            compute_swap_step_spec(
                current,
                target,
                liquidity,
                amount_remaining,
                fee_pips,
            )->Ok_0.sqrt_ratio_next_x96,
        ),
{
    let zero_for_one = current >= target;
    if amount_remaining >= 0 {
        let available = amount_less_fee(amount_remaining, fee_pips)->Ok_0;
        let needed = input_to_reach(current, target, liquidity, zero_for_one)->Ok_0;
        if available < needed {
            if zero_for_one {
                lemma_token0_in_stays(current, target, liquidity, available);
            } else {
                lemma_token1_in_stays(current, target, liquidity, available);
            }
        }
    } else {
        let available = output_to_reach(current, target, liquidity, zero_for_one)->Ok_0;
        let wanted = magnitude(amount_remaining);
        if wanted < available {
            if zero_for_one {
                lemma_token1_out_stays(current, target, liquidity, wanted);
            } else {
                lemma_token0_out_stays(current, target, liquidity, wanted);
            }
        }
    }
}

/// An exact-input step never takes more than is left: the input and
/// the fee together are at most the remaining amount, and exactly the
/// remaining amount where the step stops short of its target.
pub proof fn lemma_swap_step_budget(
    current: u128,
    target: u128,
    liquidity: u128,
    amount_remaining: i128,
    fee_pips: u32,
)
    requires
        fee_pips < FEE_DENOMINATOR,
        amount_remaining >= 0,
        compute_swap_step_spec(current, target, liquidity, amount_remaining, fee_pips) is Ok,
    ensures
        ({
            let step = compute_swap_step_spec(
                current,
                target,
                liquidity,
                amount_remaining,
                fee_pips,
            )->Ok_0;
            &&& step.amount_in + step.fee_amount <= amount_remaining
            &&& step.sqrt_ratio_next_x96 != target ==> step.amount_in + step.fee_amount
                == amount_remaining
        }),
{
    let zero_for_one = current >= target;
    let step = compute_swap_step_spec(current, target, liquidity, amount_remaining, fee_pips)->Ok_0;
    let available = amount_less_fee(amount_remaining, fee_pips)->Ok_0;
    let needed = input_to_reach(current, target, liquidity, zero_for_one)->Ok_0;
    if available < needed {
        if zero_for_one {
            lemma_token0_in_stays(current, target, liquidity, available);
        } else {
            lemma_token1_in_stays(current, target, liquidity, available);
        }
    } else {
        let d = FEE_DENOMINATOR as int;
        let f = fee_pips as int;
        let r = amount_remaining as int;
        let a = step.amount_in as int;
        lemma_floor_div_covers(r * (d - f), d);
        assert(a * f <= (r - a) * (d - f)) by (nonlinear_arith)
            requires
                a <= (r * (d - f)) / d,
                ((r * (d - f)) / d) * d <= r * (d - f),
                d > 0,
                0 <= f < d,
                a >= 0,
        ;
        lemma_ceil_div_at_most(a * f, d - f, r - a);
    }
}

/// The price that an amount of token1 out moves the pool to frees at
/// least that amount.
proof fn lemma_token1_out_covers(current: u128, liquidity: u128, amount: u128)
    requires
        crate::sqrt_price_math::next_price_from_amount1_spec(current, liquidity, amount, false) is Ok,
    ensures
        ({
            let next = crate::sqrt_price_math::next_price_from_amount1_spec(
                current,
                liquidity,
                amount,
                false,
            )->Ok_0;
            (liquidity as int * (current - next)) / (crate::constants::Q96 as int) >= amount
        }),
{
    let q96 = crate::constants::Q96 as int;
    let l = liquidity as int;
    let a = amount as int;
    let quotient = crate::full_math::ceil_div(a * q96, l);
    lemma_ceil_div_covers(a * q96, l);
    assert(a * q96 <= l * quotient) by (nonlinear_arith)
        requires
            a * q96 <= quotient * l,
    ;
    lemma_floor_div_at_least(l * quotient, q96, a);
}

/// The price that an amount of token0 out moves the pool to frees at
/// least that amount.
proof fn lemma_token0_out_covers(current: u128, liquidity: u128, amount: u128)
    requires
        current > 0,
        amount > 0,
        crate::sqrt_price_math::next_price_from_amount0_spec(current, liquidity, amount, false) is Ok,
    ensures
        ({
            let next = crate::sqrt_price_math::next_price_from_amount0_spec(
                current,
                liquidity,
                amount,
                false,
            )->Ok_0;
            &&& next >= current
            &&& (liquidity as int * (next - current) * crate::constants::Q96 as int) / (next as int
                * current as int) >= amount
        }),
{
    let q96 = crate::constants::Q96 as int;
    let n1 = liquidity as int * q96;
    let c = current as int;
    let a = amount as int;
    let d = n1 - a * c;
    let next = crate::full_math::ceil_div(n1 * c, d);
    lemma_ceil_div_covers(n1 * c, d);
    assert(a * c > 0) by (nonlinear_arith)
        requires
            a > 0,
            c > 0,
    ;
    assert(next >= c) by (nonlinear_arith)
        requires
            n1 * c <= next * d,
            0 < d <= n1,
            c > 0,
    ;
    assert(a * (next * c) <= liquidity as int * (next - c) * q96 && next * c > 0)
        by (nonlinear_arith)
        requires
            n1 * c <= next * d,
            d == n1 - a * c,
            n1 == liquidity as int * q96,
            next >= c,
            c > 0,
    ;
    lemma_floor_div_at_least(liquidity as int * (next - c) * q96, next * c, a);
}

/// A step of an exact-output swap that stops short of its target gives
/// all that is left to give.
pub proof fn lemma_swap_step_fills(
    current: u128,
    target: u128,
    liquidity: u128,
    amount_remaining: i128,
    fee_pips: u32,
)
    requires
        fee_pips < FEE_DENOMINATOR,
        amount_remaining < 0,
        current > 0,
        compute_swap_step_spec(current, target, liquidity, amount_remaining, fee_pips) is Ok,
    ensures
        ({
            let step = compute_swap_step_spec(
                current,
                target,
                liquidity,
                amount_remaining,
                fee_pips,
            )->Ok_0;
            &&& step.amount_out <= magnitude(amount_remaining)
            &&& step.sqrt_ratio_next_x96 != target ==> step.amount_out == magnitude(
                amount_remaining,
            )
        }),
{
    let zero_for_one = current >= target;
    let wanted = magnitude(amount_remaining);
    let available = output_to_reach(current, target, liquidity, zero_for_one)->Ok_0;
    if wanted < available {
        if zero_for_one {
            lemma_token1_out_stays(current, target, liquidity, wanted);
            lemma_token1_out_covers(current, liquidity, wanted);
        } else {
            lemma_token0_out_stays(current, target, liquidity, wanted);
            lemma_token0_out_covers(current, liquidity, wanted);
        }
    }
}

} // verus!
