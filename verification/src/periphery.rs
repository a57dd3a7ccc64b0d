//! What stands between callers and pools: routing of swaps with
//! deadlines and slippage bounds, quotes, and the bookkeeping of
//! positions that a manager holds for their owners.

use vstd::prelude::*;
use crate::constants::FEE_DENOMINATOR;
use crate::error::PoolError;
use crate::pool::DexPool;
use crate::swap::{commit_swap, compute_swap, effective_limit, swap_spec};
use crate::swap_math::{compute_swap_step, compute_swap_step_spec};
use crate::swap::{update_swap_amounts, update_swap_amounts_spec};
use crate::tick_math::{get_tick_at_sqrt_ratio, tick_at_sqrt_ratio_spec};
use crate::types::{Address, PoolState, PositionData};

verus! {

/// Every way an operation of the periphery can end without effect.
#[derive(Clone, Copy, Debug, PartialEq, Eq, Structural)]
pub enum PeripheryError {
    /// The deadline of the transaction has passed.
    Expired,
    /// A swap gave less than the caller asked for at least.
    InsufficientOutput,
    /// A swap took more than the caller allowed at most.
    ExcessiveInput,
    /// A path of a swap names fewer than two tokens.
    InvalidPath,
    /// A change of liquidity moved less of a token than the caller
    /// asked for at least.
    SlippageCheckFailed,
    /// More liquidity is taken than the position holds.
    InsufficientLiquidity,
    /// A position with liquidity cannot be burnt.
    PositionHasLiquidity,
    /// A position with owed tokens cannot be burnt.
    PositionHasUncollectedTokens,
    /// An amount does not fit the integer type that holds it.
    NumericOverflow,
    /// The pool turned the operation down.
    Pool(PoolError),
}

/// What a caller asks of a swap of an exact input through one pool.
#[derive(Clone, Copy, Debug, PartialEq, Eq, Structural)]
pub struct ExactInputSingleParams {
    pub token_in: Address,
    pub token_out: Address,
    pub fee: u32,
    pub recipient: Address,
    pub deadline: u64,
    pub amount_in: i128,
    pub amount_out_minimum: i128,
    pub sqrt_price_limit_x96: u128,
}

/// What a caller asks of a swap for an exact output through one pool.
#[derive(Clone, Copy, Debug, PartialEq, Eq, Structural)]
pub struct ExactOutputSingleParams {
    pub token_in: Address,
    pub token_out: Address,
    pub fee: u32,
    pub recipient: Address,
    pub deadline: u64,
    pub amount_out: i128,
    pub amount_in_maximum: i128,
    pub sqrt_price_limit_x96: u128,
}

/// One leg of a path through several pools.
#[derive(Clone, Copy, Debug, PartialEq, Eq, Structural)]
pub struct PathElement {
    pub token: Address,
    pub fee: u32,
}

/// What a caller asks of a mint of a new position.
#[derive(Clone, Copy, Debug, PartialEq, Eq, Structural)]
pub struct MintParams {
    pub token0: Address,
    pub token1: Address,
    pub fee: u32,
    pub tick_lower: i32,
    pub tick_upper: i32,
    pub amount0_desired: i128,
    pub amount1_desired: i128,
    pub amount0_min: i128,
    pub amount1_min: i128,
    pub recipient: Address,
    pub deadline: u64,
}

/// What a caller asks of an addition of liquidity to a position.
#[derive(Clone, Copy, Debug, PartialEq, Eq, Structural)]
pub struct IncreaseLiquidityParams {
    pub position_id: u32,
    pub amount0_desired: i128,
    pub amount1_desired: i128,
    pub amount0_min: i128,
    pub amount1_min: i128,
    pub deadline: u64,
}

/// What a caller asks of a removal of liquidity from a position.
#[derive(Clone, Copy, Debug, PartialEq, Eq, Structural)]
pub struct DecreaseLiquidityParams {
    pub position_id: u32,
    pub liquidity: u128,
    pub amount0_min: i128,
    pub amount1_min: i128,
    pub deadline: u64,
}

/// What a caller asks of a collection from a position.
#[derive(Clone, Copy, Debug, PartialEq, Eq, Structural)]
pub struct CollectParams {
    pub position_id: u32,
    pub recipient: Address,
    pub amount0_max: u128,
    pub amount1_max: u128,
}

/// The outcome of a quote.
#[derive(Clone, Copy, Debug, PartialEq, Eq, Structural)]
pub struct QuoteResult {
    /// Output of the swap for an exact input; input of the swap for an
    /// exact output.
    pub amount_out: i128,
    pub sqrt_price_after_x96: u128,
    pub tick_after: i32,
}

/// Fails once the time is past the deadline.
pub fn check_deadline(now: u64, deadline: u64) -> (r: Result<(), PeripheryError>)
    ensures
        r == (if now > deadline {
            Err::<(), PeripheryError>(PeripheryError::Expired)
        } else {
            Ok(())
        }),
{
    if now > deadline {
        Err(PeripheryError::Expired)
    } else {
        Ok(())
    }
}

/// Whether a swap of `token_in` for `token_out` puts token0 in: it does
/// where `token_in` comes first in the order of addresses.
pub fn swap_direction(token_in: &Address, token_out: &Address) -> (r: bool)
    ensures
        r == token_in.spec_lt(token_out),
{
    token_in.lt(token_out)
}

/// The amount that a swap gave, from the two amounts it moved.
pub open spec fn amount_received(zero_for_one: bool, amount0: i128, amount1: i128) -> int {
    if zero_for_one {
        -(amount1 as int)
    } else {
        -(amount0 as int)
    }
}

/// The amount that a swap took, from the two amounts it moved.
pub open spec fn amount_paid(zero_for_one: bool, amount0: i128, amount1: i128) -> i128 {
    if zero_for_one {
        amount0
    } else {
        amount1
    }
}

/// The output of a swap of an exact input; fails where it is under the
/// minimum that the caller asked for.
pub fn exact_input_amount_out(
    zero_for_one: bool,
    amount0: i128,
    amount1: i128,
    amount_out_minimum: i128,
) -> (r: Result<i128, PeripheryError>)
    ensures
        r == (if amount_received(zero_for_one, amount0, amount1) > i128::MAX {
            Err::<i128, PeripheryError>(PeripheryError::NumericOverflow)
        } else if amount_received(zero_for_one, amount0, amount1) < amount_out_minimum {
            Err(PeripheryError::InsufficientOutput)
        } else {
            Ok(amount_received(zero_for_one, amount0, amount1) as i128)
        }),
{
    let given = if zero_for_one {
        amount1
    } else {
        amount0
    };
    if given == i128::MIN {
        return Err(PeripheryError::NumericOverflow);
    }
    let amount_out = -given;
    if amount_out < amount_out_minimum {
        return Err(PeripheryError::InsufficientOutput);
    }
    Ok(amount_out)
}

/// The input of a swap for an exact output; fails where it is over the
/// maximum that the caller allowed.
pub fn exact_output_amount_in(
    zero_for_one: bool,
    amount0: i128,
    amount1: i128,
    amount_in_maximum: i128,
) -> (r: Result<i128, PeripheryError>)
    ensures
        r == (if amount_paid(zero_for_one, amount0, amount1) > amount_in_maximum {
            Err::<i128, PeripheryError>(PeripheryError::ExcessiveInput)
        } else {
            Ok(amount_paid(zero_for_one, amount0, amount1))
        }),
{
    let amount_in = if zero_for_one {
        amount0
    } else {
        amount1
    };
    if amount_in > amount_in_maximum {
        return Err(PeripheryError::ExcessiveInput);
    }
    Ok(amount_in)
}

/// The two amounts of a change of liquidity as signed values; fails
/// where one is under the minimum that the caller asked for.
pub fn check_minimums(amount0: u128, amount1: u128, amount0_min: i128, amount1_min: i128) -> (r:
    Result<(i128, i128), PeripheryError>)
    ensures
        r == (if amount0 > i128::MAX || amount1 > i128::MAX {
            Err::<(i128, i128), PeripheryError>(PeripheryError::NumericOverflow)
        } else if amount0 < amount0_min || amount1 < amount1_min {
            Err(PeripheryError::SlippageCheckFailed)
        } else {
            Ok((amount0 as i128, amount1 as i128))
        }),
{
    if amount0 > i128::MAX as u128 || amount1 > i128::MAX as u128 {
        return Err(PeripheryError::NumericOverflow);
    }
    let signed0 = amount0 as i128;
    let signed1 = amount1 as i128;
    if signed0 < amount0_min || signed1 < amount1_min {
        return Err(PeripheryError::SlippageCheckFailed);
    }
    Ok((signed0, signed1))
}

/// The router: swaps through pools, within a deadline and a bound on
/// the slippage.
pub struct DexRouter;

impl DexRouter {
    /// Swaps an exact input through a pool, and returns the output.
    /// Fails past the deadline, where the pool turns the swap down, and
    /// where the output is under the minimum; the pool then stays as it
    /// was.
    pub fn exact_input_single(pool: &mut DexPool, params: &ExactInputSingleParams, now: u64) -> (r:
        Result<i128, PeripheryError>)
        requires
            old(pool)@.wf(),
        ensures
            final(pool)@.wf(),
            r == routed_swap(
                old(pool)@,
                now,
                params.deadline,
                params.token_in.spec_lt(&params.token_out),
                params.amount_in,
                params.sqrt_price_limit_x96,
                params.amount_out_minimum,
                true,
            ),
            r is Err ==> *final(pool) == *old(pool),
            r is Ok ==> final(pool)@ == swap_spec(
                old(pool)@,
                params.token_in.spec_lt(&params.token_out),
                params.amount_in,
                params.sqrt_price_limit_x96,
            )->Ok_0.0,
    {
        check_deadline(now, params.deadline)?;
        let zero_for_one = swap_direction(&params.token_in, &params.token_out);
        let (computation, crossed) = match compute_swap(
            &pool.storage,
            zero_for_one,
            params.amount_in,
            params.sqrt_price_limit_x96,
        ) {
            Ok(computed) => computed,
            Err(e) => {
                return Err(PeripheryError::Pool(e));
            },
        };
        let amount_out = exact_input_amount_out(
            zero_for_one,
            computation.amount0,
            computation.amount1,
            params.amount_out_minimum,
        )?;
        commit_swap(
            &mut pool.storage,
            zero_for_one,
            params.amount_in,
            params.sqrt_price_limit_x96,
            &computation,
            &crossed,
        );
        Ok(amount_out)
    }

    /// Swaps for an exact output through a pool, and returns the input.
    /// Fails past the deadline, where the pool turns the swap down, and
    /// where the input is over the maximum; the pool then stays as it
    /// was.
    pub fn exact_output_single(pool: &mut DexPool, params: &ExactOutputSingleParams, now: u64) -> (r:
        Result<i128, PeripheryError>)
        requires
            old(pool)@.wf(),
        ensures
            final(pool)@.wf(),
            params.amount_out == i128::MIN ==> r == (if now > params.deadline {
                Err::<i128, PeripheryError>(PeripheryError::Expired)
            } else {
                Err(PeripheryError::NumericOverflow)
            }),
            params.amount_out > i128::MIN ==> r == routed_swap(
                old(pool)@,
                now,
                params.deadline,
                params.token_in.spec_lt(&params.token_out),
                (-params.amount_out) as i128,
                params.sqrt_price_limit_x96,
                params.amount_in_maximum,
                false,
            ),
            r is Err ==> *final(pool) == *old(pool),
            r is Ok ==> final(pool)@ == swap_spec(
                old(pool)@,
                params.token_in.spec_lt(&params.token_out),
                (-params.amount_out) as i128,
                params.sqrt_price_limit_x96,
            )->Ok_0.0,
    {
        check_deadline(now, params.deadline)?;
        if params.amount_out == i128::MIN {
            return Err(PeripheryError::NumericOverflow);
        }
        let zero_for_one = swap_direction(&params.token_in, &params.token_out);
        let (computation, crossed) = match compute_swap(
            &pool.storage,
            zero_for_one,
            -params.amount_out,
            params.sqrt_price_limit_x96,
        ) {
            Ok(computed) => computed,
            Err(e) => {
                return Err(PeripheryError::Pool(e));
            },
        };
        let amount_in = exact_output_amount_in(
            zero_for_one,
            computation.amount0,
            computation.amount1,
            params.amount_in_maximum,
        )?;
        commit_swap(
            &mut pool.storage,
            zero_for_one,
            -params.amount_out,
            params.sqrt_price_limit_x96,
            &computation,
            &crossed,
        );
        Ok(amount_in)
    }
}

/// What a routed swap returns: the output of a swap of an exact input
/// that is within its deadline and gives the minimum asked for, or the
/// input of a swap for an exact output that is within its deadline and
/// takes no more than the maximum allowed.
pub open spec fn routed_swap(
    view: crate::model::PoolView,
    now: u64,
    deadline: u64,
    zero_for_one: bool,
    amount_specified: i128,
    sqrt_price_limit_x96: u128,
    bound: i128,
    exact_input: bool,
) -> Result<i128, PeripheryError> {
    if now > deadline {
        Err(PeripheryError::Expired)
    } else {
        match swap_spec(view, zero_for_one, amount_specified, sqrt_price_limit_x96) {
            Err(e) => Err(PeripheryError::Pool(e)),
            Ok((_after, amounts)) => if exact_input {
                if amount_received(zero_for_one, amounts.0, amounts.1) > i128::MAX {
                    Err(PeripheryError::NumericOverflow)
                } else if amount_received(zero_for_one, amounts.0, amounts.1) < bound {
                    Err(PeripheryError::InsufficientOutput)
                } else {
                    Ok(amount_received(zero_for_one, amounts.0, amounts.1) as i128)
                }
            } else {
                if amount_paid(zero_for_one, amounts.0, amounts.1) > bound {
                    Err(PeripheryError::ExcessiveInput)
                } else {
                    Ok(amount_paid(zero_for_one, amounts.0, amounts.1))
                }
            },
        }
    }
}

/// What `DexQuoter::simulate_swap` returns: the outcome of one step of
/// a swap from the state of a pool towards the price limit, at the
/// active liquidity of the pool.
pub open spec fn simulate_swap_spec(
    state: PoolState,
    fee: u32,
    amount_specified: i128,
    sqrt_price_limit_x96: u128,
) -> Result<QuoteResult, PoolError> {
    if amount_specified == 0 || state.sqrt_price_x96 == sqrt_price_limit_x96 {
        Ok(
            QuoteResult {
                amount_out: 0,
                sqrt_price_after_x96: state.sqrt_price_x96,
                tick_after: state.tick,
            },
        )
    } else {
        match compute_swap_step_spec(
            state.sqrt_price_x96,
            sqrt_price_limit_x96,
            state.liquidity,
            amount_specified,
            fee,
        ) {
            Err(e) => Err(e),
            Ok(step) => match update_swap_amounts_spec(
                amount_specified,
                0,
                step.amount_in,
                step.amount_out,
                step.fee_amount,
                amount_specified > 0,
            ) {
                Err(e) => Err(e),
                Ok((_remaining, calculated)) => {
                    let tick = if step.sqrt_ratio_next_x96 != state.sqrt_price_x96 {
                        tick_at_sqrt_ratio_spec(step.sqrt_ratio_next_x96)
                    } else {
                        Ok(state.tick)
                    };
                    if tick is Err {
                        Err(tick->Err_0)
                    } else if amount_specified > 0 && calculated == i128::MIN {
                        Err(PoolError::NumericOverflow)
                    } else {
                        Ok(
                            QuoteResult {
                                amount_out: if amount_specified > 0 {
                                    (-calculated) as i128
                                } else {
                                    calculated
                                },
                                sqrt_price_after_x96: step.sqrt_ratio_next_x96,
                                tick_after: tick->Ok_0,
                            },
                        )
                    }
                },
            },
        }
    }
}

/// The quoter: what a swap would give, without making it.
pub struct DexQuoter;

impl DexQuoter {
    /// The outcome of one step of a swap from the state of a pool
    /// towards the price limit, at the active liquidity of the pool:
    /// a quote that holds as long as the swap crosses no initialized
    /// tick.
    pub fn simulate_swap(
        state: &PoolState,
        fee: u32,
        amount_specified: i128,
        sqrt_price_limit_x96: u128,
    ) -> (r: Result<QuoteResult, PoolError>)
        requires
            fee < FEE_DENOMINATOR,
        ensures
            r == simulate_swap_spec(*state, fee, amount_specified, sqrt_price_limit_x96),
    {
        if amount_specified == 0 || state.sqrt_price_x96 == sqrt_price_limit_x96 {
            return Ok(
                QuoteResult {
                    amount_out: 0,
                    sqrt_price_after_x96: state.sqrt_price_x96,
                    tick_after: state.tick,
                },
            );
        }
        let exact_input = amount_specified > 0;
        let step = compute_swap_step(
            state.sqrt_price_x96,
            sqrt_price_limit_x96,
            state.liquidity,
            amount_specified,
            fee,
        )?;
        let (_remaining, calculated) = update_swap_amounts(
            amount_specified,
            0,
            step.amount_in,
            step.amount_out,
            step.fee_amount,
            exact_input,
        )?;
        let tick_after = if step.sqrt_ratio_next_x96 != state.sqrt_price_x96 {
            get_tick_at_sqrt_ratio(step.sqrt_ratio_next_x96)?
        } else {
            state.tick
        };
        if exact_input && calculated == i128::MIN {
            return Err(PoolError::NumericOverflow);
        }
        Ok(
            QuoteResult {
                amount_out: if exact_input {
                    -calculated
                } else {
                    calculated
                },
                sqrt_price_after_x96: step.sqrt_ratio_next_x96,
                tick_after,
            },
        )
    }

    /// What a swap of an exact input would give, without making it:
    /// the output, and the price and the tick after the swap.
    pub fn quote_exact_input_single(
        pool: &DexPool,
        zero_for_one: bool,
        amount_in: i128,
        sqrt_price_limit_x96: u128,
    ) -> (r: Result<QuoteResult, PoolError>)
        requires
            pool@.wf(),
        ensures
            r == quote_of(pool@, zero_for_one, amount_in, sqrt_price_limit_x96, true),
    {
        let (computation, _crossed) = compute_swap(
            &pool.storage,
            zero_for_one,
            amount_in,
            sqrt_price_limit_x96,
        )?;
        let given = if zero_for_one {
            computation.amount1
        } else {
            computation.amount0
        };
        if given == i128::MIN {
            return Err(PoolError::NumericOverflow);
        }
        Ok(
            QuoteResult {
                amount_out: -given,
                sqrt_price_after_x96: computation.sqrt_price_x96,
                tick_after: computation.tick,
            },
        )
    }

    /// What a swap for an exact output would take, without making it:
    /// the input, and the price and the tick after the swap.
    pub fn quote_exact_output_single(
        pool: &DexPool,
        zero_for_one: bool,
        amount_out: i128,
        sqrt_price_limit_x96: u128,
    ) -> (r: Result<QuoteResult, PoolError>)
        requires
            pool@.wf(),
        ensures
            amount_out == i128::MIN ==> r == Err::<QuoteResult, PoolError>(
                PoolError::NumericOverflow,
            ),
            amount_out > i128::MIN ==> r == quote_of(
                pool@,
                zero_for_one,
                (-amount_out) as i128,
                sqrt_price_limit_x96,
                false,
            ),
    {
        if amount_out == i128::MIN {
            return Err(PoolError::NumericOverflow);
        }
        let (computation, _crossed) = compute_swap(
            &pool.storage,
            zero_for_one,
            -amount_out,
            sqrt_price_limit_x96,
        )?;
        Ok(
            QuoteResult {
                amount_out: if zero_for_one {
                    computation.amount0
                } else {
                    computation.amount1
                },
                sqrt_price_after_x96: computation.sqrt_price_x96,
                tick_after: computation.tick,
            },
        )
    }
}

/// What a quote says of a swap: for an exact input the output that the
/// swap gives, for an exact output the input that it takes, and the
/// price and the tick that it leaves the pool at.
pub open spec fn quote_of(
    view: crate::model::PoolView,
    zero_for_one: bool,
    amount_specified: i128,
    sqrt_price_limit_x96: u128,
    exact_input: bool,
) -> Result<QuoteResult, PoolError> {
    match swap_spec(view, zero_for_one, amount_specified, sqrt_price_limit_x96) {
        Err(e) => Err(e),
        Ok((after, amounts)) => if exact_input && amount_received(
            zero_for_one,
            amounts.0,
            amounts.1,
        ) > i128::MAX {
            Err(PoolError::NumericOverflow)
        } else {
            Ok(
                QuoteResult {
                    amount_out: if exact_input {
                        amount_received(zero_for_one, amounts.0, amounts.1) as i128
                    } else {
                        amount_paid(zero_for_one, amounts.0, amounts.1)
                    },
                    sqrt_price_after_x96: after.state->Some_0.sqrt_price_x96,
                    tick_after: after.state->Some_0.tick,
                },
            )
        },
    }
}

/// The price limit that a swap works with: the given one, or for zero
/// the end of the price domain on the side the swap moves to.
pub fn default_limit(zero_for_one: bool, sqrt_price_limit_x96: u128) -> (r: u128)
    ensures
        r == effective_limit(zero_for_one, sqrt_price_limit_x96),
{
    if sqrt_price_limit_x96 == 0 {
        if zero_for_one {
            crate::constants::MIN_SQRT_RATIO + 1
        } else {
            crate::constants::MAX_SQRT_RATIO - 1
        }
    } else {
        sqrt_price_limit_x96
    }
}

/// The manager of positions: the records it keeps of the positions that
/// it holds in pools for their owners.
pub struct DexPositionManager;

impl DexPositionManager {
    /// The record of a new position.
    pub fn new_position(pool: Address, tick_lower: i32, tick_upper: i32, liquidity: u128) -> (r:
        PositionData)
        ensures
            r == (PositionData {
                pool,
                tick_lower,
                tick_upper,
                liquidity,
                fee_growth_inside_0_last_x128: 0,
                fee_growth_inside_1_last_x128: 0,
                tokens_owed_0: 0,
                tokens_owed_1: 0,
            }),
    {
        PositionData {
            pool,
            tick_lower,
            tick_upper,
            liquidity,
            fee_growth_inside_0_last_x128: 0,
            fee_growth_inside_1_last_x128: 0,
            tokens_owed_0: 0,
            tokens_owed_1: 0,
        }
    }

    /// The record of a position after liquidity was added to it.
    pub fn increase_liquidity(position: &PositionData, liquidity: u128) -> (r: Result<
        PositionData,
        PeripheryError,
    >)
        ensures
            r == (if position.liquidity + liquidity > u128::MAX {
                Err::<PositionData, PeripheryError>(PeripheryError::NumericOverflow)
            } else {
                Ok(PositionData { liquidity: (position.liquidity + liquidity) as u128, ..*position })
            }),
    {
        match position.liquidity.checked_add(liquidity) {
            Some(sum) => Ok(PositionData { liquidity: sum, ..*position }),
            None => Err(PeripheryError::NumericOverflow),
        }
    }

    /// Whether a position holds the liquidity that is to be taken from
    /// it.
    pub fn check_decrease(position: &PositionData, liquidity: u128) -> (r: Result<
        (),
        PeripheryError,
    >)
        ensures
            r == (if liquidity > position.liquidity {
                Err::<(), PeripheryError>(PeripheryError::InsufficientLiquidity)
            } else {
                Ok(())
            }),
    {
        if liquidity > position.liquidity {
            Err(PeripheryError::InsufficientLiquidity)
        } else {
            Ok(())
        }
    }

    /// The record of a position after liquidity was taken from it for
    /// the given amounts, which are owed to the position from then on.
    pub fn decrease_liquidity(
        position: &PositionData,
        liquidity: u128,
        amount0: u128,
        amount1: u128,
    ) -> (r: Result<PositionData, PeripheryError>)
        ensures
            r == (if liquidity > position.liquidity {
                Err::<PositionData, PeripheryError>(PeripheryError::InsufficientLiquidity)
            } else if position.tokens_owed_0 + amount0 > u128::MAX || position.tokens_owed_1
                + amount1 > u128::MAX {
                Err(PeripheryError::NumericOverflow)
            } else {
                Ok(
                    PositionData {
                        liquidity: (position.liquidity - liquidity) as u128,
                        tokens_owed_0: (position.tokens_owed_0 + amount0) as u128,
                        tokens_owed_1: (position.tokens_owed_1 + amount1) as u128,
                        ..*position
                    },
                )
            }),
    {
        if liquidity > position.liquidity {
            return Err(PeripheryError::InsufficientLiquidity);
        }
        let owed_0 = position.tokens_owed_0.checked_add(amount0);
        let owed_1 = position.tokens_owed_1.checked_add(amount1);
        match (owed_0, owed_1) {
            (Some(tokens_owed_0), Some(tokens_owed_1)) => Ok(
                PositionData {
                    liquidity: position.liquidity - liquidity,
                    tokens_owed_0,
                    tokens_owed_1,
                    ..*position
                },
            ),
            _ => Err(PeripheryError::NumericOverflow),
        }
    }

    /// The record of a position after the given amounts were collected
    /// from it: its owed tokens go down by them, and not under zero.
    pub fn collect(position: &PositionData, collected0: u128, collected1: u128) -> (r:
        PositionData)
        ensures
            r == (PositionData {
                tokens_owed_0: if collected0 >= position.tokens_owed_0 {
                    0
                } else {
                    (position.tokens_owed_0 - collected0) as u128
                },
                tokens_owed_1: if collected1 >= position.tokens_owed_1 {
                    0
                } else {
                    (position.tokens_owed_1 - collected1) as u128
                },
                ..*position
            }),
    {
        PositionData {
            tokens_owed_0: if collected0 >= position.tokens_owed_0 {
                0
            } else {
                position.tokens_owed_0 - collected0
            },
            tokens_owed_1: if collected1 >= position.tokens_owed_1 {
                0
            } else {
                position.tokens_owed_1 - collected1
            },
            ..*position
        }
    }

    /// Whether a caller may act for the owner of a position: the owner
    /// may, the one approved for the position may, and whoever the
    /// owner approved for all positions may.
    pub fn is_approved_or_owner(
        caller: &Address,
        owner: &Address,
        approved: Option<Address>,
        approved_for_all: bool,
    ) -> (r: bool)
        ensures
            r == (*caller == *owner || approved == Some(*caller) || approved_for_all),
    {
        if *caller == *owner {
            return true;
        }
        match approved {
            Some(approved) => {
                if approved == *caller {
                    return true;
                }
            },
            None => {},
        }
        approved_for_all
    }

    /// What taking a position out of the list of its owner does to the
    /// list: which slot the last position of the list moves to, if it
    /// moves, and how long the list is afterwards. An empty list stays
    /// as it is.
    pub fn removal_plan(count: u32, index_to_remove: u32) -> (r: Option<(Option<u32>, u32)>)
        ensures
            r == (if count == 0 {
                None::<(Option<u32>, u32)>
            } else {
                Some(
                    (
                        if index_to_remove != count - 1 {
                            Some(index_to_remove)
                        } else {
                            None
                        },
                        (count - 1) as u32,
                    ),
                )
            }),
    {
        if count == 0 {
            return None;
        }
        let last_index = count - 1;
        if index_to_remove != last_index {
            Some((Some(index_to_remove), last_index))
        } else {
            Some((None, last_index))
        }
    }

    /// Whether a position may be burnt: it may once it holds neither
    /// liquidity nor owed tokens.
    pub fn burn(position: &PositionData) -> (r: Result<(), PeripheryError>)
        ensures
            r == (if position.liquidity != 0 {
                Err::<(), PeripheryError>(PeripheryError::PositionHasLiquidity)
            } else if position.tokens_owed_0 != 0 || position.tokens_owed_1 != 0 {
                Err(PeripheryError::PositionHasUncollectedTokens)
            } else {
                Ok(())
            }),
    {
        if position.liquidity != 0 {
            return Err(PeripheryError::PositionHasLiquidity);
        }
        if position.tokens_owed_0 != 0 || position.tokens_owed_1 != 0 {
            return Err(PeripheryError::PositionHasUncollectedTokens);
        }
        Ok(())
    }
}

} // verus!
