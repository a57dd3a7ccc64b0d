//! Conversions between a liquidity amount and the token amounts that
//! back it over a price range, and signed updates of liquidity.

use vstd::prelude::*;
use crate::constants::Q96;
use crate::error::PoolError;
use crate::full_math::{mul_div, mul_div_spec};
use crate::sqrt_price_math::{
    amount0_delta_spec, amount1_delta_spec, get_amount0_delta, get_amount1_delta, max_price,
    min_price,
};

verus! {

/// Liquidity that `amount0` of token0 backs over `[lower, upper]`:
/// `amount0 * floor(lower * upper / 2^96) / (upper - lower)`.
pub open spec fn liquidity_for_amount0_spec(a: u128, b: u128, amount0: u128) -> Result<
    u128,
    PoolError,
> {
    let lower = min_price(a, b);
    let upper = max_price(a, b);
    match mul_div_spec(lower, upper, Q96) {
        Err(e) => Err(e),
        Ok(intermediate) => mul_div_spec(amount0, intermediate, (upper - lower) as u128),
    }
}

/// Liquidity that `amount1` of token1 backs over `[lower, upper]`:
/// `amount1 * 2^96 / (upper - lower)`.
pub open spec fn liquidity_for_amount1_spec(a: u128, b: u128, amount1: u128) -> Result<
    u128,
    PoolError,
> {
    let lower = min_price(a, b);
    let upper = max_price(a, b);
    mul_div_spec(amount1, Q96, (upper - lower) as u128)
}

/// What `get_liquidity_for_amounts` returns.
pub open spec fn liquidity_for_amounts_spec(
    price: u128,
    a: u128,
    b: u128,
    amount0: u128,
    amount1: u128,
) -> Result<u128, PoolError> {
    let lower = min_price(a, b);
    let upper = max_price(a, b);
    if price <= lower {
        liquidity_for_amount0_spec(lower, upper, amount0)
    } else if price < upper {
        match liquidity_for_amount0_spec(price, upper, amount0) {
            Err(e) => Err(e),
            Ok(liquidity0) => match liquidity_for_amount1_spec(lower, price, amount1) {
                Err(e) => Err(e),
                Ok(liquidity1) => Ok(
                    if liquidity0 < liquidity1 {
                        liquidity0
                    } else {
                        liquidity1
                    },
                ),
            },
        }
    } else {
        liquidity_for_amount1_spec(lower, upper, amount1)
    }
}

/// The token amounts behind `liquidity` over the range between `a` and
/// `b` at the current `price`, each rounded by the flag: token0 only
/// while the price is at or under the range, token1 only while it is at
/// or over it, both inside.
pub open spec fn amounts_for_liquidity_spec(
    price: u128,
    a: u128,
    b: u128,
    liquidity: u128,
    round_up: bool,
) -> Result<(u128, u128), PoolError> {
    let lower = min_price(a, b);
    let upper = max_price(a, b);
    if price <= lower {
        match amount0_delta_spec(lower, upper, liquidity, round_up) {
            Err(e) => Err(e),
            Ok(amount0) => Ok((amount0, 0u128)),
        }
    } else if price < upper {
        match amount0_delta_spec(price, upper, liquidity, round_up) {
            Err(e) => Err(e),
            Ok(amount0) => match amount1_delta_spec(lower, price, liquidity, round_up) {
                Err(e) => Err(e),
                Ok(amount1) => Ok((amount0, amount1)),
            },
        }
    } else {
        match amount1_delta_spec(lower, upper, liquidity, round_up) {
            Err(e) => Err(e),
            Ok(amount1) => Ok((0u128, amount1)),
        }
    }
}

/// What `add_delta` returns.
pub open spec fn add_delta_spec(liquidity: u128, delta: i128) -> Result<u128, PoolError> {
    if delta < 0 {
        if (liquidity as int) < -(delta as int) {
            Err(PoolError::LiquidityUnderflow)
        } else {
            Ok((liquidity + delta) as u128)
        }
    } else {
        if liquidity + delta > u128::MAX {
            Err(PoolError::LiquidityOverflow)
        } else {
            Ok((liquidity + delta) as u128)
        }
    }
}

/// The magnitude of a signed 128-bit value.
pub open spec fn magnitude(x: i128) -> u128 {
    if x < 0 {
        (-(x as int)) as u128
    } else {
        x as u128
    }
}

/// The magnitude of a signed 128-bit value, `2^127` for the least one.
pub fn unsigned_abs(x: i128) -> (r: u128)
    ensures
        r == magnitude(x),
{
    if x == i128::MIN {
        0x8000_0000_0000_0000_0000_0000_0000_0000
    } else if x < 0 {
        (-x) as u128
    } else {
        x as u128
    }
}

/// The largest liquidity that the given token amounts back over the
/// range between `sqrt_ratio_a_x96` and `sqrt_ratio_b_x96` at the
/// current price.
pub fn get_liquidity_for_amounts(
    sqrt_ratio_x96: u128,
    sqrt_ratio_a_x96: u128,
    sqrt_ratio_b_x96: u128,
    amount0: u128,
    amount1: u128,
) -> (r: Result<u128, PoolError>)
    ensures
        r == liquidity_for_amounts_spec(
            sqrt_ratio_x96,
            sqrt_ratio_a_x96,
            sqrt_ratio_b_x96,
            amount0,
            amount1,
        ),
{
    let (lower, upper) = if sqrt_ratio_a_x96 > sqrt_ratio_b_x96 {
        (sqrt_ratio_b_x96, sqrt_ratio_a_x96)
    } else {
        (sqrt_ratio_a_x96, sqrt_ratio_b_x96)
    };
    if sqrt_ratio_x96 <= lower {
        get_liquidity_for_amount0(lower, upper, amount0)
    } else if sqrt_ratio_x96 < upper {
        let liquidity0 = get_liquidity_for_amount0(sqrt_ratio_x96, upper, amount0)?;
        let liquidity1 = get_liquidity_for_amount1(lower, sqrt_ratio_x96, amount1)?;
        if liquidity0 < liquidity1 {
            Ok(liquidity0)
        } else {
            Ok(liquidity1)
        }
    } else {
        get_liquidity_for_amount1(lower, upper, amount1)
    }
}

/// The liquidity that an amount of token0 backs over a price range.
pub fn get_liquidity_for_amount0(sqrt_ratio_a_x96: u128, sqrt_ratio_b_x96: u128, amount0: u128) -> (r:
    Result<u128, PoolError>)
    ensures
        r == liquidity_for_amount0_spec(sqrt_ratio_a_x96, sqrt_ratio_b_x96, amount0),
{
    let (lower, upper) = if sqrt_ratio_a_x96 > sqrt_ratio_b_x96 {
        (sqrt_ratio_b_x96, sqrt_ratio_a_x96)
    } else {
        (sqrt_ratio_a_x96, sqrt_ratio_b_x96)
    };
    let intermediate = mul_div(lower, upper, Q96)?;
    mul_div(amount0, intermediate, upper - lower)
}

/// The liquidity that an amount of token1 backs over a price range.
pub fn get_liquidity_for_amount1(sqrt_ratio_a_x96: u128, sqrt_ratio_b_x96: u128, amount1: u128) -> (r:
    Result<u128, PoolError>)
    ensures
        r == liquidity_for_amount1_spec(sqrt_ratio_a_x96, sqrt_ratio_b_x96, amount1),
{
    let (lower, upper) = if sqrt_ratio_a_x96 > sqrt_ratio_b_x96 {
        (sqrt_ratio_b_x96, sqrt_ratio_a_x96)
    } else {
        (sqrt_ratio_a_x96, sqrt_ratio_b_x96)
    };
    mul_div(amount1, Q96, upper - lower)
}

/// The token amounts behind `liquidity` over a price range, rounded
/// down: what a provider gets back.
pub fn get_amounts_for_liquidity(
    sqrt_ratio_x96: u128,
    sqrt_ratio_a_x96: u128,
    sqrt_ratio_b_x96: u128,
    liquidity: u128,
) -> (r: Result<(u128, u128), PoolError>)
    ensures
        r == amounts_for_liquidity_spec(
            sqrt_ratio_x96,
            sqrt_ratio_a_x96,
            sqrt_ratio_b_x96,
            liquidity,
            false,
        ),
{
    get_amounts_for_liquidity_rounded(
        sqrt_ratio_x96,
        sqrt_ratio_a_x96,
        sqrt_ratio_b_x96,
        liquidity,
        false,
    )
}

/// The token amounts behind `liquidity` over a price range, rounded up
/// (what a provider pays in) or down (what a provider gets back).
pub fn get_amounts_for_liquidity_rounded(
    sqrt_ratio_x96: u128,
    sqrt_ratio_a_x96: u128,
    sqrt_ratio_b_x96: u128,
    liquidity: u128,
    round_up: bool,
) -> (r: Result<(u128, u128), PoolError>)
    ensures
        r == amounts_for_liquidity_spec(
            sqrt_ratio_x96,
            sqrt_ratio_a_x96,
            sqrt_ratio_b_x96,
            liquidity,
            round_up,
        ),
{
    let (lower, upper) = if sqrt_ratio_a_x96 > sqrt_ratio_b_x96 {
        (sqrt_ratio_b_x96, sqrt_ratio_a_x96)
    } else {
        (sqrt_ratio_a_x96, sqrt_ratio_b_x96)
    };
    if sqrt_ratio_x96 <= lower {
        let amount0 = get_amount0_delta(lower, upper, liquidity, round_up)?;
        Ok((amount0, 0))
    } else if sqrt_ratio_x96 < upper {
        let amount0 = get_amount0_delta(sqrt_ratio_x96, upper, liquidity, round_up)?;
        let amount1 = get_amount1_delta(lower, sqrt_ratio_x96, liquidity, round_up)?;
        Ok((amount0, amount1))
    } else {
        let amount1 = get_amount1_delta(lower, upper, liquidity, round_up)?;
        Ok((0, amount1))
    }
}

/// `liquidity + delta`, failing where the sum leaves the `u128` range:
/// with `LiquidityOverflow` above it, with `LiquidityUnderflow` below.
pub fn add_delta(liquidity: u128, delta: i128) -> (r: Result<u128, PoolError>)
    ensures
        r == add_delta_spec(liquidity, delta),
{
    let size = unsigned_abs(delta);
    if delta < 0 {
        if liquidity < size {
            Err(PoolError::LiquidityUnderflow)
        } else {
            Ok(liquidity - size)
        }
    } else {
        match liquidity.checked_add(size) {
            Some(sum) => Ok(sum),
            None => Err(PoolError::LiquidityOverflow),
        }
    }
}

/// Adding a delta and then its negation gives the liquidity back.
pub proof fn lemma_add_delta_roundtrip(liquidity: u128, delta: i128)
    requires
        delta > i128::MIN,
        add_delta_spec(liquidity, delta) is Ok,
    ensures
        add_delta_spec(add_delta_spec(liquidity, delta)->Ok_0, (-delta) as i128) == Ok::<
            u128,
            PoolError,
        >(liquidity),
{
}

/// A delta that is not negative is added.
pub proof fn add_delta_positive_correct(liquidity: u128, delta: i128)
    requires
        delta >= 0,
        liquidity + delta <= u128::MAX,
    ensures
        add_delta_spec(liquidity, delta) == Ok::<u128, PoolError>((liquidity + delta) as u128),
{
}

/// A negative delta is taken off, where the liquidity covers it.
pub proof fn add_delta_negative_correct(liquidity: u128, delta: i128)
    requires
        delta < 0,
        liquidity as int >= -(delta as int),
    ensures
        add_delta_spec(liquidity, delta) == Ok::<u128, PoolError>((liquidity + delta) as u128),
{
}

/// What a provider pays for liquidity and what the same liquidity gives
/// back at the same price differ by at most one unit of each token, and
/// never in the provider's favour.
pub proof fn lemma_amounts_rounding_gap(price: u128, a: u128, b: u128, liquidity: u128)
    requires
        amounts_for_liquidity_spec(price, a, b, liquidity, true) is Ok,
    ensures
        amounts_for_liquidity_spec(price, a, b, liquidity, false) is Ok,
        ({
            let paid = amounts_for_liquidity_spec(price, a, b, liquidity, true)->Ok_0;
            let back = amounts_for_liquidity_spec(price, a, b, liquidity, false)->Ok_0;
            &&& back.0 <= paid.0 <= back.0 + 1
            &&& back.1 <= paid.1 <= back.1 + 1
        }),
{
    let lower = min_price(a, b);
    let upper = max_price(a, b);
    if price <= lower {
        lemma_amount0_nonnegative(lower, upper, liquidity);
    } else if price < upper {
        lemma_amount0_nonnegative(price, upper, liquidity);
        lemma_amount1_nonnegative(lower, price, liquidity);
    } else {
        lemma_amount1_nonnegative(lower, upper, liquidity);
    }
}

proof fn lemma_amount0_nonnegative(a: u128, b: u128, liquidity: u128)
    requires
        0 < a <= b,
    ensures
        (liquidity as int * (b - a) * Q96 as int) / (b as int * a as int) >= 0,
{
    assert(b as int * a as int > 0) by (nonlinear_arith)
        requires
            b as int >= a as int,
            a as int > 0,
    ;
    assert(liquidity as int * (b - a) * Q96 as int >= 0) by (nonlinear_arith)
        requires
            liquidity as int >= 0,
            b - a >= 0,
            Q96 as int > 0,
    ;
    vstd::arithmetic::div_mod::lemma_div_pos_is_pos(
        liquidity as int * (b - a) * Q96 as int,
        b as int * a as int,
    );
}

proof fn lemma_amount1_nonnegative(a: u128, b: u128, liquidity: u128)
    requires
        a <= b,
    ensures
        (liquidity as int * (b - a)) / (Q96 as int) >= 0,
{
    assert(liquidity as int * (b - a) >= 0) by (nonlinear_arith)
        requires
            liquidity as int >= 0,
            b - a >= 0,
    ;
}

} // verus!
