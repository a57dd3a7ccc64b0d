//! Token amounts for a move of the square-root price, and the price that
//! a token amount moves it to.

use vstd::prelude::*;
use crate::constants::Q96;
use crate::error::PoolError;
use crate::full_math::{ceil_div, mul_div, mul_div_rounding_up, narrow};
use crate::wide::Wide;

verus! {

pub open spec fn min_price(a: u128, b: u128) -> u128 {
    if a > b {
        b
    } else {
        a
    }
}

pub open spec fn max_price(a: u128, b: u128) -> u128 {
    if a > b {
        a
    } else {
        b
    }
}

/// `floor` or `ceil` of `x / d`, by the rounding flag.
pub open spec fn div_rounded(x: int, d: int, round_up: bool) -> int {
    if round_up {
        ceil_div(x, d)
    } else {
        x / d
    }
}

/// What `get_amount0_delta` returns: `L * 2^96 * (pb - pa) / (pa * pb)`
/// for the ordered prices `pa <= pb`.
pub open spec fn amount0_delta_spec(a: u128, b: u128, liquidity: u128, round_up: bool) -> Result<
    u128,
    PoolError,
> {
    let lower = min_price(a, b);
    let upper = max_price(a, b);
    if lower == 0 {
        Err(PoolError::NumericUnderflow)
    } else {
        narrow(
            div_rounded(
                liquidity as int * (upper - lower) * Q96 as int,
                upper as int * lower as int,
                round_up,
            ),
        )
    }
}

/// What `get_amount1_delta` returns: `L * (pb - pa) / 2^96` for the
/// ordered prices `pa <= pb`.
pub open spec fn amount1_delta_spec(a: u128, b: u128, liquidity: u128, round_up: bool) -> Result<
    u128,
    PoolError,
> {
    let lower = min_price(a, b);
    let upper = max_price(a, b);
    narrow(div_rounded(liquidity as int * (upper - lower), Q96 as int, round_up))
}

/// The price after `amount` of token0 is added to or taken from the
/// pool: `L * 2^96 * p / (L * 2^96 +- amount * p)`, rounded up.
pub open spec fn next_price_from_amount0_spec(
    price: u128,
    liquidity: u128,
    amount: u128,
    add: bool,
) -> Result<u128, PoolError> {
    let numerator = liquidity as int * Q96 as int;
    let product = amount as int * price as int;
    if amount == 0 {
        Ok(price)
    } else if add {
        if numerator + product >= crate::wide::wide_bound() {
            Err(PoolError::NumericOverflow)
        } else if numerator + product == 0 {
            Err(PoolError::NumericUnderflow)
        } else {
            narrow(ceil_div(numerator * price as int, numerator + product))
        }
    } else {
        if numerator <= product {
            Err(PoolError::NumericUnderflow)
        } else {
            narrow(ceil_div(numerator * price as int, numerator - product))
        }
    }
}

/// The price after `amount` of token1 is added to or taken from the
/// pool: `p +- amount * 2^96 / L`, rounded down.
pub open spec fn next_price_from_amount1_spec(
    price: u128,
    liquidity: u128,
    amount: u128,
    add: bool,
) -> Result<u128, PoolError> {
    if liquidity == 0 {
        Err(PoolError::NumericUnderflow)
    } else if add {
        narrow(price + (amount as int * Q96 as int) / (liquidity as int))
    } else {
        let quotient = ceil_div(amount as int * Q96 as int, liquidity as int);
        if price as int <= quotient {
            Err(PoolError::NumericUnderflow)
        } else {
            Ok((price - quotient) as u128)
        }
    }
}

/// What `get_next_sqrt_price_from_input` returns.
pub open spec fn next_price_from_input_spec(
    price: u128,
    liquidity: u128,
    amount_in: u128,
    zero_for_one: bool,
) -> Result<u128, PoolError> {
    if price == 0 || liquidity == 0 {
        Err(PoolError::NumericUnderflow)
    } else if zero_for_one {
        next_price_from_amount0_spec(price, liquidity, amount_in, true)
    } else {
        next_price_from_amount1_spec(price, liquidity, amount_in, true)
    }
}

/// What `get_next_sqrt_price_from_output` returns.
pub open spec fn next_price_from_output_spec(
    price: u128,
    liquidity: u128,
    amount_out: u128,
    zero_for_one: bool,
) -> Result<u128, PoolError> {
    if price == 0 || liquidity == 0 {
        Err(PoolError::NumericUnderflow)
    } else if zero_for_one {
        next_price_from_amount1_spec(price, liquidity, amount_out, false)
    } else {
        next_price_from_amount0_spec(price, liquidity, amount_out, false)
    }
}

/// A quotient of a 256-bit division as a `u128`, one more where the
/// division left a remainder and rounding goes up.
fn round_quotient(quotient: &Wide, rem: &Wide, round_up: bool) -> (r: Result<u128, PoolError>)
    ensures
        r == narrow(
            if round_up && rem@ != 0 {
                quotient@ + 1
            } else {
                quotient@
            },
        ),
{
    proof {
        quotient.lemma_view_range();
    }
    match quotient.to_u128() {
        None => Err(PoolError::NumericOverflow),
        Some(q) => {
            if round_up && !rem.is_zero() {
                match q.checked_add(1) {
                    Some(up) => Ok(up),
                    None => Err(PoolError::NumericOverflow),
                }
            } else {
                Ok(q)
            }
        },
    }
}

/// The amount of token0 that a move of the square-root price between
/// `sqrt_ratio_a_x96` and `sqrt_ratio_b_x96` takes or gives at the given
/// liquidity. The order of the two prices does not matter.
pub fn get_amount0_delta(
    sqrt_ratio_a_x96: u128,
    sqrt_ratio_b_x96: u128,
    liquidity: u128,
    round_up: bool,
) -> (r: Result<u128, PoolError>)
    ensures
        r == amount0_delta_spec(sqrt_ratio_a_x96, sqrt_ratio_b_x96, liquidity, round_up),
{
    let (lower, upper) = if sqrt_ratio_a_x96 > sqrt_ratio_b_x96 {
        (sqrt_ratio_b_x96, sqrt_ratio_a_x96)
    } else {
        (sqrt_ratio_a_x96, sqrt_ratio_b_x96)
    };
    if lower == 0 {
        return Err(PoolError::NumericUnderflow);
    }
    let scaled = Wide::full_mul(liquidity, upper - lower);
    let denominator = Wide::full_mul(upper, lower);
    proof {
        assert(upper as int * lower as int > 0) by (nonlinear_arith)
            requires
                upper as int >= lower as int,
                lower as int > 0,
        ;
        assert(liquidity as int * (upper - lower) * Q96 as int >= 0) by (nonlinear_arith)
            requires
                liquidity as int >= 0,
                upper - lower >= 0,
                Q96 as int > 0,
        ;
        vstd::arithmetic::div_mod::lemma_div_pos_is_pos(
            liquidity as int * (upper - lower) * Q96 as int,
            upper as int * lower as int,
        );
    }
    match Wide::mul_div_rem(scaled, Q96, &denominator) {
        None => Err(PoolError::NumericOverflow),
        Some((quotient, rem)) => round_quotient(&quotient, &rem, round_up),
    }
}

/// The amount of token1 that a move of the square-root price between
/// `sqrt_ratio_a_x96` and `sqrt_ratio_b_x96` takes or gives at the given
/// liquidity. The order of the two prices does not matter.
pub fn get_amount1_delta(
    sqrt_ratio_a_x96: u128,
    sqrt_ratio_b_x96: u128,
    liquidity: u128,
    round_up: bool,
) -> (r: Result<u128, PoolError>)
    ensures
        r == amount1_delta_spec(sqrt_ratio_a_x96, sqrt_ratio_b_x96, liquidity, round_up),
{
    let (lower, upper) = if sqrt_ratio_a_x96 > sqrt_ratio_b_x96 {
        (sqrt_ratio_b_x96, sqrt_ratio_a_x96)
    } else {
        (sqrt_ratio_a_x96, sqrt_ratio_b_x96)
    };
    if round_up {
        mul_div_rounding_up(liquidity, upper - lower, Q96)
    } else {
        mul_div(liquidity, upper - lower, Q96)
    }
}

/// The price that an input amount moves the pool to: down for token0
/// in, up for token1 in. The rounding never under-reports the input.
pub fn get_next_sqrt_price_from_input(
    sqrt_price_x96: u128,
    liquidity: u128,
    amount_in: u128,
    zero_for_one: bool,
) -> (r: Result<u128, PoolError>)
    ensures
        r == next_price_from_input_spec(sqrt_price_x96, liquidity, amount_in, zero_for_one),
{
    if sqrt_price_x96 == 0 || liquidity == 0 {
        return Err(PoolError::NumericUnderflow);
    }
    if zero_for_one {
        get_next_sqrt_price_from_amount0_rounding_up(sqrt_price_x96, liquidity, amount_in, true)
    } else {
        get_next_sqrt_price_from_amount1_rounding_down(sqrt_price_x96, liquidity, amount_in, true)
    }
}

/// The price that an output amount moves the pool to: down for token1
/// out, up for token0 out. The rounding never over-reports the output.
pub fn get_next_sqrt_price_from_output(
    sqrt_price_x96: u128,
    liquidity: u128,
    amount_out: u128,
    zero_for_one: bool,
) -> (r: Result<u128, PoolError>)
    ensures
        r == next_price_from_output_spec(sqrt_price_x96, liquidity, amount_out, zero_for_one),
{
    if sqrt_price_x96 == 0 || liquidity == 0 {
        return Err(PoolError::NumericUnderflow);
    }
    if zero_for_one {
        get_next_sqrt_price_from_amount1_rounding_down(
            sqrt_price_x96,
            liquidity,
            amount_out,
            false,
        )
    } else {
        get_next_sqrt_price_from_amount0_rounding_up(sqrt_price_x96, liquidity, amount_out, false)
    }
}

/// The price after a token0 amount enters (`add`) or leaves the pool.
pub fn get_next_sqrt_price_from_amount0_rounding_up(
    sqrt_price_x96: u128,
    liquidity: u128,
    amount: u128,
    add: bool,
) -> (r: Result<u128, PoolError>)
    ensures
        r == next_price_from_amount0_spec(sqrt_price_x96, liquidity, amount, add),
{
    if amount == 0 {
        return Ok(sqrt_price_x96);
    }
    let numerator = Wide::full_mul(liquidity, Q96);
    let product = Wide::full_mul(amount, sqrt_price_x96);
    proof {
        numerator.lemma_view_range();
        product.lemma_view_range();
    }
    let denominator = if add {
        match numerator.checked_add(&product) {
            None => {
                return Err(PoolError::NumericOverflow);
            },
            Some(sum) => {
                if sum.is_zero() {
                    return Err(PoolError::NumericUnderflow);
                }
                sum
            },
        }
    } else {
        match numerator.checked_sub(&product) {
            None => {
                return Err(PoolError::NumericUnderflow);
            },
            Some(diff) => {
                if diff.is_zero() {
                    return Err(PoolError::NumericUnderflow);
                }
                diff
            },
        }
    };
    proof {
        assert(numerator@ * sqrt_price_x96 as int >= 0) by (nonlinear_arith)
            requires
                numerator@ >= 0,
                sqrt_price_x96 as int >= 0,
        ;
        vstd::arithmetic::div_mod::lemma_div_pos_is_pos(
            numerator@ * sqrt_price_x96 as int,
            denominator@,
        );
    }
    match Wide::mul_div_rem(numerator, sqrt_price_x96, &denominator) {
        None => Err(PoolError::NumericOverflow),
        Some((quotient, rem)) => round_quotient(&quotient, &rem, true),
    }
}

/// The price after a token1 amount enters (`add`) or leaves the pool.
pub fn get_next_sqrt_price_from_amount1_rounding_down(
    sqrt_price_x96: u128,
    liquidity: u128,
    amount: u128,
    add: bool,
) -> (r: Result<u128, PoolError>)
    ensures
        r == next_price_from_amount1_spec(sqrt_price_x96, liquidity, amount, add),
{
    if liquidity == 0 {
        return Err(PoolError::NumericUnderflow);
    }
    proof {
        assert(amount as int * Q96 as int >= 0) by (nonlinear_arith)
            requires
                amount as int >= 0,
                Q96 as int >= 0,
        ;
        vstd::arithmetic::div_mod::lemma_div_pos_is_pos(
            amount as int * Q96 as int,
            liquidity as int,
        );
    }
    if add {
        match mul_div(amount, Q96, liquidity) {
            Err(_) => Err(PoolError::NumericOverflow),
            Ok(quotient) => match sqrt_price_x96.checked_add(quotient) {
                Some(next) => Ok(next),
                None => Err(PoolError::NumericOverflow),
            },
        }
    } else {
        match mul_div_rounding_up(amount, Q96, liquidity) {
            Err(_) => Err(PoolError::NumericUnderflow),
            Ok(quotient) => {
                if sqrt_price_x96 <= quotient {
                    Err(PoolError::NumericUnderflow)
                } else {
                    Ok(sqrt_price_x96 - quotient)
                }
            },
        }
    }
}

} // verus!
