//! Multiply-then-divide on 128-bit operands with a 256-bit intermediate.

use vstd::prelude::*;
use crate::error::PoolError;
use crate::wide::{lemma_div_rem_unique, Wide};

verus! {

/// `ceil(x / d)` for `x >= 0` and `d > 0`.
pub open spec fn ceil_div(x: int, d: int) -> int {
    if x % d == 0 {
        x / d
    } else {
        x / d + 1
    }
}

/// A value as a `u128`, or the overflow error where it does not fit.
pub open spec fn narrow(x: int) -> Result<u128, PoolError> {
    if 0 <= x <= u128::MAX {
        Ok(x as u128)
    } else {
        Err(PoolError::NumericOverflow)
    }
}

/// What `mul_div` returns: `floor(a * b / d)`.
pub open spec fn mul_div_spec(a: u128, b: u128, d: u128) -> Result<u128, PoolError> {
    if d == 0 {
        Err(PoolError::DivisionByZero)
    } else {
        narrow((a as int * b as int) / (d as int))
    }
}

/// What `mul_div_rounding_up` returns: `ceil(a * b / d)`.
pub open spec fn mul_div_rounding_up_spec(a: u128, b: u128, d: u128) -> Result<u128, PoolError> {
    if d == 0 {
        Err(PoolError::DivisionByZero)
    } else {
        narrow(ceil_div(a as int * b as int, d as int))
    }
}

/// What `div_rounding_up` returns: `ceil(a / b)`.
pub open spec fn div_rounding_up_spec(a: u128, b: u128) -> Result<u128, PoolError> {
    if b == 0 {
        Err(PoolError::DivisionByZero)
    } else {
        Ok(ceil_div(a as int, b as int) as u128)
    }
}

/// `floor(a * b / denominator)` without losing the high bits of the
/// product. Fails on a zero denominator and on a quotient above
/// `u128::MAX`.
pub fn mul_div(a: u128, b: u128, denominator: u128) -> (r: Result<u128, PoolError>)
    ensures
        r == mul_div_spec(a, b, denominator),
{
    if denominator == 0 {
        return Err(PoolError::DivisionByZero);
    }
    let product = Wide::full_mul(a, b);
    let (quotient, _rem) = Wide::div_rem(product, &Wide::from_u128(denominator));
    proof {
        quotient.lemma_view_range();
    }
    match quotient.to_u128() {
        Some(q) => Ok(q),
        None => Err(PoolError::NumericOverflow),
    }
}

/// `ceil(a * b / denominator)`; fails as `mul_div` does.
pub fn mul_div_rounding_up(a: u128, b: u128, denominator: u128) -> (r: Result<u128, PoolError>)
    ensures
        r == mul_div_rounding_up_spec(a, b, denominator),
{
    if denominator == 0 {
        return Err(PoolError::DivisionByZero);
    }
    let product = Wide::full_mul(a, b);
    let (quotient, rem) = Wide::div_rem(product, &Wide::from_u128(denominator));
    proof {
        quotient.lemma_view_range();
    }
    match quotient.to_u128() {
        Some(q) => {
            if rem.is_zero() {
                Ok(q)
            } else if q == u128::MAX {
                Err(PoolError::NumericOverflow)
            } else {
                Ok(q + 1)
            }
        },
        None => Err(PoolError::NumericOverflow),
    }
}

/// `ceil(a / b)`; fails on `b == 0`.
pub fn div_rounding_up(a: u128, b: u128) -> (r: Result<u128, PoolError>)
    ensures
        r == div_rounding_up_spec(a, b),
{
    if b == 0 {
        return Err(PoolError::DivisionByZero);
    }
    if a % b == 0 {
        Ok(a / b)
    } else {
        proof {
            assert(a as int / b as int <= a as int - 1) by (nonlinear_arith)
                requires
                    a as int % b as int != 0,
                    b as int > 0,
                    a as int >= 0,
            ;
        }
        Ok(a / b + 1)
    }
}

/// Rounding up adds at most one unit to rounding down, and never takes
/// any away.
pub proof fn mul_div_rounding_relationship(a: u128, b: u128, d: u128)
    requires
        mul_div_spec(a, b, d) is Ok,
        mul_div_rounding_up_spec(a, b, d) is Ok,
    ensures
        mul_div_rounding_up_spec(a, b, d)->Ok_0 >= mul_div_spec(a, b, d)->Ok_0,
        mul_div_rounding_up_spec(a, b, d)->Ok_0 - mul_div_spec(a, b, d)->Ok_0 <= 1,
        mul_div_rounding_up_spec(a, b, d)->Ok_0 == mul_div_spec(a, b, d)->Ok_0 <==> (a as int
            * b as int) % (d as int) == 0,
{
}

/// The quotient that `mul_div` returns, multiplied back by the
/// denominator, misses the product by less than one denominator: the
/// quotient is within one unit of the exact ratio.
pub proof fn lemma_mul_div_inverse(a: u128, b: u128, d: u128)
    requires
        mul_div_spec(a, b, d) is Ok,
    ensures
        mul_div_spec(a, b, d)->Ok_0 as int * d as int <= a as int * b as int,
        (a as int) * (b as int) < (mul_div_spec(a, b, d)->Ok_0 as int + 1) * d as int,
{
    let x = a as int * b as int;
    let q = x / (d as int);
    vstd::arithmetic::div_mod::lemma_fundamental_div_mod(x, d as int);
    vstd::arithmetic::div_mod::lemma_mod_bound(x, d as int);
    assert((q + 1) * d as int == q * d as int + d as int) by (nonlinear_arith);
    assert(d as int * q == q * d as int) by (nonlinear_arith);
}

/// Multiplying by a value and dividing by the same value gives the
/// operand back exactly.
pub proof fn lemma_mul_div_cancel(a: u128, b: u128)
    requires
        b != 0,
    ensures
        mul_div_spec(a, b, b) == Ok::<u128, PoolError>(a),
        mul_div_rounding_up_spec(a, b, b) == Ok::<u128, PoolError>(a),
{
    lemma_div_rem_unique(a as int * b as int, b as int, a as int, 0);
}

} // verus!
