//! The records that the pool keeps and hands out.

use vstd::prelude::*;
use crate::constants::MAX_TICK;

verus! {

/// A fee in hundredths of a basis point: 500 is 0.05%, 3000 is 0.3%.
pub type Fee = u32;

/// An account or a contract, by its kind and its 256-bit key.
#[derive(Clone, Copy, Debug, PartialEq, Eq, Structural)]
pub struct Address {
    /// Whether the key names a contract rather than an account.
    pub contract: bool,
    /// High half of the key.
    pub hi: u128,
    /// Low half of the key.
    pub lo: u128,
}

impl Address {
    /// The total order of addresses: accounts before contracts, then by
    /// key.
    pub open spec fn spec_lt(&self, other: &Address) -> bool {
        if self.contract != other.contract {
            !self.contract
        } else if self.hi != other.hi {
            self.hi < other.hi
        } else {
            self.lo < other.lo
        }
    }

    /// Whether this address comes strictly before `other`.
    pub fn lt(&self, other: &Address) -> (r: bool)
        ensures
            r == self.spec_lt(other),
    {
        if self.contract != other.contract {
            !self.contract
        } else if self.hi != other.hi {
            self.hi < other.hi
        } else {
            self.lo < other.lo
        }
    }

    /// Of two different addresses exactly one comes before the other.
    pub proof fn lemma_total_order(&self, other: &Address)
        ensures
            *self == *other <==> !self.spec_lt(other) && !other.spec_lt(self),
            !(self.spec_lt(other) && other.spec_lt(self)),
    {
    }
}

/// What the pool records for a tick that some position ends at.
#[derive(Clone, Copy, Debug, PartialEq, Eq, Structural)]
pub struct TickInfo {
    /// Total liquidity of the positions that end at this tick.
    pub liquidity_gross: u128,
    /// Liquidity that becomes active when the price crosses the tick
    /// upwards, and inactive when it crosses downwards.
    pub liquidity_net: i128,
    /// Fee growth of token0 on the side of the tick away from the price.
    pub fee_growth_outside_0_x128: u128,
    /// Fee growth of token1 on the side of the tick away from the price.
    pub fee_growth_outside_1_x128: u128,
    /// Whether any position ends at this tick.
    pub initialized: bool,
}

impl TickInfo {
    /// The record of a tick that no position ends at.
    pub open spec fn empty() -> TickInfo {
        TickInfo {
            liquidity_gross: 0,
            liquidity_net: 0,
            fee_growth_outside_0_x128: 0,
            fee_growth_outside_1_x128: 0,
            initialized: false,
        }
    }

    pub fn new() -> (r: TickInfo)
        ensures
            r == TickInfo::empty(),
    {
        TickInfo {
            liquidity_gross: 0,
            liquidity_net: 0,
            fee_growth_outside_0_x128: 0,
            fee_growth_outside_1_x128: 0,
            initialized: false,
        }
    }
}

impl Default for TickInfo {
    fn default() -> (r: TickInfo)
        ensures
            r == TickInfo::empty(),
    {
        TickInfo::new()
    }
}

/// The key of a position in its pool.
#[derive(Clone, Copy, Debug, PartialEq, Eq, Structural)]
pub struct PositionKey {
    pub owner: Address,
    pub tick_lower: i32,
    pub tick_upper: i32,
}

/// What the pool records for a position.
#[derive(Clone, Copy, Debug, PartialEq, Eq, Structural)]
pub struct PositionInfo {
    /// Liquidity of the position.
    pub liquidity: u128,
    /// Fee growth of token0 inside the range when the position was last
    /// touched.
    pub fee_growth_inside_0_last_x128: u128,
    /// Fee growth of token1 inside the range when the position was last
    /// touched.
    pub fee_growth_inside_1_last_x128: u128,
    /// Token0 that the owner may collect.
    pub tokens_owed_0: u128,
    /// Token1 that the owner may collect.
    pub tokens_owed_1: u128,
}

impl PositionInfo {
    /// The record of a position that holds nothing.
    pub open spec fn empty() -> PositionInfo {
        PositionInfo {
            liquidity: 0,
            fee_growth_inside_0_last_x128: 0,
            fee_growth_inside_1_last_x128: 0,
            tokens_owed_0: 0,
            tokens_owed_1: 0,
        }
    }

    /// Whether the record holds neither liquidity nor owed tokens.
    pub open spec fn is_vacant(&self) -> bool {
        self.liquidity == 0 && self.tokens_owed_0 == 0 && self.tokens_owed_1 == 0
    }

    pub fn new() -> (r: PositionInfo)
        ensures
            r == PositionInfo::empty(),
    {
        PositionInfo {
            liquidity: 0,
            fee_growth_inside_0_last_x128: 0,
            fee_growth_inside_1_last_x128: 0,
            tokens_owed_0: 0,
            tokens_owed_1: 0,
        }
    }
}

impl Default for PositionInfo {
    fn default() -> (r: PositionInfo)
        ensures
            r == PositionInfo::empty(),
    {
        PositionInfo::new()
    }
}

/// A position as a position manager tracks it, with the pool it is in.
#[derive(Clone, Copy, Debug, PartialEq, Eq, Structural)]
pub struct PositionData {
    pub pool: Address,
    pub tick_lower: i32,
    pub tick_upper: i32,
    pub liquidity: u128,
    pub fee_growth_inside_0_last_x128: u128,
    pub fee_growth_inside_1_last_x128: u128,
    pub tokens_owed_0: u128,
    pub tokens_owed_1: u128,
}

/// The state of a pool that swaps and liquidity changes move.
#[derive(Clone, Copy, Debug, PartialEq, Eq, Structural)]
pub struct PoolState {
    /// Square-root price in Q64.96.
    pub sqrt_price_x96: u128,
    /// Tick of the price.
    pub tick: i32,
    /// Liquidity of the positions whose range holds the tick.
    pub liquidity: u128,
    /// Fees of token0 per unit of liquidity since the pool began, in
    /// Q128.128, modulo 2^128.
    pub fee_growth_global_0_x128: u128,
    /// Fees of token1 per unit of liquidity since the pool began, in
    /// Q128.128, modulo 2^128.
    pub fee_growth_global_1_x128: u128,
    /// Protocol fees of token0.
    pub protocol_fees_0: i128,
    /// Protocol fees of token1.
    pub protocol_fees_1: i128,
}

impl PoolState {
    /// The state of a pool that was just initialized at a price.
    pub open spec fn fresh(sqrt_price_x96: u128, tick: i32) -> PoolState {
        PoolState {
            sqrt_price_x96,
            tick,
            liquidity: 0,
            fee_growth_global_0_x128: 0,
            fee_growth_global_1_x128: 0,
            protocol_fees_0: 0,
            protocol_fees_1: 0,
        }
    }

    pub fn new(sqrt_price_x96: u128, tick: i32) -> (r: PoolState)
        ensures
            r == PoolState::fresh(sqrt_price_x96, tick),
    {
        PoolState {
            sqrt_price_x96,
            tick,
            liquidity: 0,
            fee_growth_global_0_x128: 0,
            fee_growth_global_1_x128: 0,
            protocol_fees_0: 0,
            protocol_fees_1: 0,
        }
    }
}

/// What is fixed when a pool is initialized.
#[derive(Clone, Copy, Debug, PartialEq, Eq, Structural)]
pub struct PoolConfig {
    pub factory: Address,
    /// The token of the pair that comes first in the order of addresses.
    pub token0: Address,
    pub token1: Address,
    pub fee: u32,
    pub tick_spacing: i32,
    pub max_liquidity_per_tick: u128,
}

/// What a caller asks of a swap.
#[derive(Clone, Copy, Debug, PartialEq, Eq, Structural)]
pub struct SwapParams {
    /// Whether token0 goes in and token1 comes out.
    pub zero_for_one: bool,
    /// An exact input where positive, an exact output where negative.
    pub amount_specified: i128,
    /// The price at which the swap stops; zero for the end of the price
    /// domain.
    pub sqrt_price_limit_x96: u128,
}

/// The running state of a swap.
#[derive(Clone, Copy, Debug, PartialEq, Eq, Structural)]
pub struct SwapState {
    /// What is left of the specified amount.
    pub amount_remaining: i128,
    /// What has accrued of the other token.
    pub amount_calculated: i128,
    pub sqrt_price_x96: u128,
    pub tick: i32,
    pub liquidity: u128,
    /// Fee growth of the input token.
    pub fee_growth_global_x128: u128,
}

/// The outcome of one step of a swap.
#[derive(Clone, Copy, Debug, PartialEq, Eq, Structural)]
pub struct SwapStepResult {
    pub sqrt_price_next_x96: u128,
    pub amount_in: u128,
    pub amount_out: u128,
    pub fee_amount: u128,
}

/// A tick that a swap crossed.
#[derive(Clone, Copy, Debug, PartialEq, Eq, Structural)]
pub struct TickCrossing {
    pub tick: i32,
    /// The change of the active liquidity, signed for the direction of
    /// the swap.
    pub liquidity_delta: i128,
}

/// The outcome of a swap.
#[derive(Clone, Copy, Debug, PartialEq, Eq, Structural)]
pub struct SwapComputation {
    /// Token0 that the caller pays (positive) or receives (negative).
    pub amount0: i128,
    /// Token1 that the caller pays (positive) or receives (negative).
    pub amount1: i128,
    pub sqrt_price_x96: u128,
    pub tick: i32,
    pub liquidity: u128,
    /// Fee growth of the input token after the swap.
    pub fee_growth_global_x128: u128,
    /// Whether the input token is token0.
    pub fee_growth_is_token0: bool,
    /// Number of initialized ticks that the swap crossed.
    pub ticks_crossed: u32,
}

/// What `fee_to_tick_spacing` returns, for the three conventional fees.
pub open spec fn fee_to_tick_spacing_spec(fee: Fee) -> i32 {
    if fee == 500 {
        10
    } else if fee == 3000 {
        60
    } else {
        200
    }
}

/// The tick spacing that goes with one of the conventional fees, 500,
/// 3000 and 10000.
pub fn fee_to_tick_spacing(fee: Fee) -> (r: i32)
    requires
        fee == 500 || fee == 3000 || fee == 10000,
    ensures
        r == fee_to_tick_spacing_spec(fee),
{
    if fee == 500 {
        10
    } else if fee == 3000 {
        60
    } else {
        200
    }
}

/// The number of ticks on a spacing within the tick domain.
pub open spec fn ticks_on_spacing(tick_spacing: int) -> int {
    2 * (MAX_TICK as int / tick_spacing) + 1
}

/// What `max_liquidity_per_tick` returns: `u128::MAX` shared out evenly
/// over the ticks on the spacing.
pub open spec fn max_liquidity_per_tick_spec(tick_spacing: int) -> int {
    u128::MAX as int / ticks_on_spacing(tick_spacing)
}

/// The most liquidity that may end at one tick, so that the liquidity
/// of all ticks together cannot overflow.
pub fn max_liquidity_per_tick(tick_spacing: i32) -> (r: u128)
    requires
        tick_spacing > 0,
    ensures
        r as int == max_liquidity_per_tick_spec(tick_spacing as int),
{
    let per_side: i32 = MAX_TICK / tick_spacing;
    proof {
        assert(0 <= MAX_TICK as int / tick_spacing as int <= MAX_TICK) by (nonlinear_arith)
            requires
                tick_spacing as int > 0,
                MAX_TICK as int == 443636,
        ;
    }
    let num_ticks: u128 = 2 * (per_side as u128) + 1;
    u128::MAX / num_ticks
}

} // verus!
