//! The pool as its callers see it: initialization, the operations of
//! takers and providers, and views of what the pool holds.

use vstd::prelude::*;
use crate::constants::{FEE_DENOMINATOR, MAX_TICK_SPACING, MIN_SQRT_RATIO};
use crate::error::PoolError;
use crate::liquidity::{burn_spec, collect_spec, mint_spec};
use crate::model::PoolView;
use crate::storage::{
    get_config, get_position, get_state, get_tick, set_config, set_state, PoolStorage,
    PositionEntry,
};
use crate::swap::swap_spec;
use crate::tick_math::{get_tick_at_sqrt_ratio, tick_at_sqrt_ratio_spec};
use crate::types::{
    max_liquidity_per_tick, Address, PoolConfig, PoolState, PositionInfo, PositionKey, TickInfo,
};

verus! {

/// A pool: one pair of tokens, one fee, one price.
pub struct DexPool {
    pub storage: PoolStorage,
}

/// What `DexPool::initialize` does to a pool.
pub open spec fn initialize_spec(
    view: PoolView,
    factory: Address,
    token0: Address,
    token1: Address,
    fee: u32,
    tick_spacing: i32,
    sqrt_price_x96: u128,
) -> Result<PoolView, PoolError> {
    if view.config is Some {
        Err(PoolError::AlreadyInitialized)
    } else if !token0.spec_lt(&token1) {
        Err(PoolError::BadTokenOrder)
    } else if fee >= FEE_DENOMINATOR {
        Err(PoolError::InvalidFee)
    } else if tick_spacing < 1 || tick_spacing > MAX_TICK_SPACING {
        Err(PoolError::InvalidTickSpacing)
    } else if sqrt_price_x96 <= MIN_SQRT_RATIO {
        Err(PoolError::PriceOutOfRange)
    } else {
        match tick_at_sqrt_ratio_spec(sqrt_price_x96) {
            Err(e) => Err(e),
            Ok(tick) => Ok(
                PoolView {
                    config: Some(
                        PoolConfig {
                            factory,
                            token0,
                            token1,
                            fee,
                            tick_spacing,
                            max_liquidity_per_tick: crate::types::max_liquidity_per_tick_spec(
                                tick_spacing as int,
                            ) as u128,
                        },
                    ),
                    state: Some(PoolState::fresh(sqrt_price_x96, tick)),
                    ..view
                },
            ),
        }
    }
}

/// The position in a view under an owner and a range.
pub open spec fn position_of(
    view: PoolView,
    owner: Address,
    tick_lower: i32,
    tick_upper: i32,
) -> PositionInfo {
    crate::storage::position_in(view.positions, PositionKey { owner, tick_lower, tick_upper })
}

impl View for DexPool {
    type V = PoolView;

    open spec fn view(&self) -> PoolView {
        self.storage@
    }
}

impl DexPool {
    /// A pool that is not initialized yet.
    pub fn new() -> (r: DexPool)
        ensures
            r@.wf(),
            r@.config is None,
            r@.state is None,
    {
        DexPool { storage: PoolStorage::new() }
    }

    /// Initializes the pool, once: sets the pair, the fee, the tick
    /// spacing and the price, and derives the tick of the price and the
    /// cap of liquidity per tick. The price has to lie strictly inside
    /// the price domain, and `token0` has to come before `token1`.
    pub fn initialize(
        &mut self,
        factory: Address,
        token0: Address,
        token1: Address,
        fee: u32,
        tick_spacing: i32,
        sqrt_price_x96: u128,
    ) -> (r: Result<(), PoolError>)
        requires
            old(self)@.wf(),
        ensures
            final(self)@.wf(),
            match initialize_spec(
                old(self)@,
                factory,
                token0,
                token1,
                fee,
                tick_spacing,
                sqrt_price_x96,
            ) {
                Err(e) => r == Err::<(), PoolError>(e) && *final(self) == *old(self),
                Ok(view) => r == Ok::<(), PoolError>(()) && final(self)@ == view,
            },
    {
        if self.storage.config.is_some() {
            return Err(PoolError::AlreadyInitialized);
        }
        if !token0.lt(&token1) {
            return Err(PoolError::BadTokenOrder);
        }
        if fee >= FEE_DENOMINATOR {
            return Err(PoolError::InvalidFee);
        }
        if tick_spacing < 1 || tick_spacing > MAX_TICK_SPACING {
            return Err(PoolError::InvalidTickSpacing);
        }
        if sqrt_price_x96 <= MIN_SQRT_RATIO {
            return Err(PoolError::PriceOutOfRange);
        }
        let tick = get_tick_at_sqrt_ratio(sqrt_price_x96)?;
        let config = PoolConfig {
            factory,
            token0,
            token1,
            fee,
            tick_spacing,
            max_liquidity_per_tick: max_liquidity_per_tick(tick_spacing),
        };
        let state = PoolState::new(sqrt_price_x96, tick);
        proof {
            crate::tick_math::lemma_tick_at_sqrt_ratio_brackets(sqrt_price_x96);
            crate::tick_math::lemma_sqrt_ratio_is_raw(tick as int);
            assert(tick < crate::constants::MAX_TICK);
            assert(crate::tick_math::sqrt_ratio_at_tick_spec(tick + 1) > sqrt_price_x96);
            assert(self.storage@.ticks == Map::<i32, TickInfo>::empty());
            lemma_empty_pool(self.storage@, config, state);
        }
        set_config(&mut self.storage, &config);
        set_state(&mut self.storage, &state);
        Ok(())
    }

    /// Swaps against the pool; see `execute_swap`.
    pub fn swap(
        &mut self,
        zero_for_one: bool,
        amount_specified: i128,
        sqrt_price_limit_x96: u128,
    ) -> (r: Result<(i128, i128), PoolError>)
        requires
            old(self)@.wf(),
        ensures
            final(self)@.wf(),
            match swap_spec(old(self)@, zero_for_one, amount_specified, sqrt_price_limit_x96) {
                Err(e) => r == Err::<(i128, i128), PoolError>(e) && *final(self) == *old(self),
                Ok((view, amounts)) => r == Ok::<(i128, i128), PoolError>(amounts) && final(self)@
                    == view,
            },
    {
        crate::swap::execute_swap(
            &mut self.storage,
            zero_for_one,
            amount_specified,
            sqrt_price_limit_x96,
        )
    }

    /// Adds liquidity to the position of `recipient`; see `mint`. Only
    /// the recipient may do so: any other caller is turned away with
    /// `Unauthorized`.
    pub fn mint(
        &mut self,
        caller: &Address,
        recipient: &Address,
        tick_lower: i32,
        tick_upper: i32,
        amount: u128,
    ) -> (r: Result<(u128, u128), PoolError>)
        requires
            old(self)@.wf(),
        ensures
            final(self)@.wf(),
            *caller != *recipient ==> r == Err::<(u128, u128), PoolError>(PoolError::Unauthorized)
                && *final(self) == *old(self),
            *caller == *recipient ==> match mint_spec(
                old(self)@,
                *recipient,
                tick_lower,
                tick_upper,
                amount,
            ) {
                Err(e) => r == Err::<(u128, u128), PoolError>(e) && *final(self) == *old(self),
                Ok((view, amounts)) => r == Ok::<(u128, u128), PoolError>(amounts) && final(self)@
                    == view,
            },
    {
        if *caller != *recipient {
            return Err(PoolError::Unauthorized);
        }
        crate::liquidity::mint(&mut self.storage, recipient, tick_lower, tick_upper, amount)
    }

    /// Takes liquidity out of the caller's position; see `burn`.
    pub fn burn(&mut self, caller: &Address, tick_lower: i32, tick_upper: i32, amount: u128) -> (r:
        Result<(u128, u128), PoolError>)
        requires
            old(self)@.wf(),
        ensures
            final(self)@.wf(),
            match burn_spec(old(self)@, *caller, tick_lower, tick_upper, amount) {
                Err(e) => r == Err::<(u128, u128), PoolError>(e) && *final(self) == *old(self),
                Ok((view, amounts)) => r == Ok::<(u128, u128), PoolError>(amounts) && final(self)@
                    == view,
            },
    {
        crate::liquidity::burn(&mut self.storage, caller, tick_lower, tick_upper, amount)
    }

    /// Hands out tokens owed to the caller's position; see `collect`.
    pub fn collect(
        &mut self,
        caller: &Address,
        tick_lower: i32,
        tick_upper: i32,
        amount0_requested: u128,
        amount1_requested: u128,
    ) -> (r: Result<(u128, u128), PoolError>)
        requires
            old(self)@.wf(),
        ensures
            final(self)@.wf(),
            match collect_spec(
                old(self)@,
                *caller,
                tick_lower,
                tick_upper,
                amount0_requested,
                amount1_requested,
            ) {
                Err(e) => r == Err::<(u128, u128), PoolError>(e) && *final(self) == *old(self),
                Ok((view, amounts)) => r == Ok::<(u128, u128), PoolError>(amounts) && final(self)@
                    == view,
            },
    {
        crate::liquidity::collect(
            &mut self.storage,
            caller,
            tick_lower,
            tick_upper,
            amount0_requested,
            amount1_requested,
        )
    }

    /// The state of the pool.
    pub fn get_state(&self) -> (r: Result<PoolState, PoolError>)
        ensures
            r == (match self@.state {
                Some(state) => Ok::<PoolState, PoolError>(state),
                None => Err(PoolError::NotInitialized),
            }),
    {
        get_state(&self.storage)
    }

    /// The configuration of the pool.
    pub fn get_config(&self) -> (r: Result<PoolConfig, PoolError>)
        ensures
            r == (match self@.config {
                Some(config) => Ok::<PoolConfig, PoolError>(config),
                None => Err(PoolError::NotInitialized),
            }),
    {
        get_config(&self.storage)
    }

    /// The record of a tick; the empty record for a tick not in use.
    pub fn get_tick(&self, tick: i32) -> (r: TickInfo)
        ensures
            r == crate::storage::tick_in(self@.ticks, tick),
    {
        get_tick(&self.storage, tick)
    }

    /// The record of a position; the empty record for one not in use.
    pub fn get_position(&self, owner: Address, tick_lower: i32, tick_upper: i32) -> (r:
        PositionInfo)
        ensures
            r == position_of(self@, owner, tick_lower, tick_upper),
    {
        let key = PositionKey { owner, tick_lower, tick_upper };
        get_position(&self.storage, &key)
    }

    /// The square-root price of the pool.
    pub fn sqrt_price_x96(&self) -> (r: Result<u128, PoolError>)
        ensures
            r == (match self@.state {
                Some(state) => Ok::<u128, PoolError>(state.sqrt_price_x96),
                None => Err(PoolError::NotInitialized),
            }),
    {
        Ok(get_state(&self.storage)?.sqrt_price_x96)
    }

    /// The tick of the pool.
    pub fn tick(&self) -> (r: Result<i32, PoolError>)
        ensures
            r == (match self@.state {
                Some(state) => Ok::<i32, PoolError>(state.tick),
                None => Err(PoolError::NotInitialized),
            }),
    {
        Ok(get_state(&self.storage)?.tick)
    }

    /// The active liquidity of the pool.
    pub fn liquidity(&self) -> (r: Result<u128, PoolError>)
        ensures
            r == (match self@.state {
                Some(state) => Ok::<u128, PoolError>(state.liquidity),
                None => Err(PoolError::NotInitialized),
            }),
    {
        Ok(get_state(&self.storage)?.liquidity)
    }

    /// The first token of the pair.
    pub fn token0(&self) -> (r: Result<Address, PoolError>)
        ensures
            r == (match self@.config {
                Some(config) => Ok::<Address, PoolError>(config.token0),
                None => Err(PoolError::NotInitialized),
            }),
    {
        Ok(get_config(&self.storage)?.token0)
    }

    /// The second token of the pair.
    pub fn token1(&self) -> (r: Result<Address, PoolError>)
        ensures
            r == (match self@.config {
                Some(config) => Ok::<Address, PoolError>(config.token1),
                None => Err(PoolError::NotInitialized),
            }),
    {
        Ok(get_config(&self.storage)?.token1)
    }

    /// The fee of the pool.
    pub fn fee(&self) -> (r: Result<u32, PoolError>)
        ensures
            r == (match self@.config {
                Some(config) => Ok::<u32, PoolError>(config.fee),
                None => Err(PoolError::NotInitialized),
            }),
    {
        Ok(get_config(&self.storage)?.fee)
    }

    /// The tick spacing of the pool.
    pub fn tick_spacing(&self) -> (r: Result<i32, PoolError>)
        ensures
            r == (match self@.config {
                Some(config) => Ok::<i32, PoolError>(config.tick_spacing),
                None => Err(PoolError::NotInitialized),
            }),
    {
        Ok(get_config(&self.storage)?.tick_spacing)
    }
}

/// A pool with a valid configuration and state, no active liquidity,
/// and nothing else in its store, has everything that holds of a pool.
pub proof fn lemma_empty_pool(view: PoolView, config: PoolConfig, state: PoolState)
    requires
        view.ticks == Map::<i32, TickInfo>::empty(),
        view.bitmap == Map::<i32, u128>::empty(),
        view.positions == Seq::<PositionEntry>::empty(),
        crate::model::config_wf(config),
        crate::model::state_wf(state),
        state.liquidity == 0,
    ensures
        (PoolView { config: Some(config), state: Some(state), ..view }).wf(),
{
    lemma_empty_net_sum(crate::constants::MIN_TICK as int, crate::constants::MAX_TICK + 1);
    assert forall|word_pos: i32, bit: int| 0 <= bit < 128 implies (
    #[trigger] crate::tick_bitmap::bit_set(crate::storage::word_in(view.bitmap, word_pos), bit)
        <==> crate::model::bit_has_tick(view.ticks, word_pos, bit, config.tick_spacing as int)) by {
        crate::tick_bitmap::lemma_bit_operations(0, 0, bit as u128);
    }
}

/// No ticks, no net liquidity.
pub proof fn lemma_empty_net_sum(lo: int, hi: int)
    ensures
        crate::model::net_sum(Map::<i32, TickInfo>::empty(), lo, hi) == 0,
    decreases hi - lo,
{
    if hi > lo {
        lemma_empty_net_sum(lo, hi - 1);
    }
}

} // verus!
