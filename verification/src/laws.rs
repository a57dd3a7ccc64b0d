//! What the operations of a pool do, stated as laws over the pool as a
//! mathematical value.

use vstd::prelude::*;
use crate::constants::{MAX_SQRT_RATIO, MAX_TICK, MIN_SQRT_RATIO, MIN_TICK};
use crate::error::PoolError;
use crate::liquidity::{burn_spec, liquidity_change_spec, mint_spec};
use crate::model::{in_range_sum, PoolView};
use crate::pool::{initialize_spec, position_of};
use crate::storage::{lemma_stored_positions, tick_in};
use crate::swap::{
    effective_limit, lemma_swap_keeps_wf, lemma_swap_step_keeps,
    lemma_swap_step_keeps_liquidity, should_continue_swap_spec, swap_loop_spec, swap_measure,
    swap_outcome, swap_spec, swap_state_ok, swap_step_spec, with_crossing, SwapSetting,
};
use crate::tick_math::tick_at_sqrt_ratio_spec;
use crate::types::{Address, PositionKey, SwapState, TickInfo};

verus! {

/// A pool that was just initialized stands at the price it was given.
pub proof fn init_sets_correct_price(
    view: PoolView,
    factory: Address,
    token0: Address,
    token1: Address,
    fee: u32,
    tick_spacing: i32,
    sqrt_price_x96: u128,
)
    requires
        initialize_spec(view, factory, token0, token1, fee, tick_spacing, sqrt_price_x96) is Ok,
    ensures
        initialize_spec(
            view,
            factory,
            token0,
            token1,
            fee,
            tick_spacing,
            sqrt_price_x96,
        )->Ok_0.state->Some_0.sqrt_price_x96 == sqrt_price_x96,
        MIN_SQRT_RATIO < sqrt_price_x96 < MAX_SQRT_RATIO,
{
}

/// A pool that was just initialized stands at the tick of its price.
pub proof fn init_tick_consistent_with_price(
    view: PoolView,
    factory: Address,
    token0: Address,
    token1: Address,
    fee: u32,
    tick_spacing: i32,
    sqrt_price_x96: u128,
)
    requires
        initialize_spec(view, factory, token0, token1, fee, tick_spacing, sqrt_price_x96) is Ok,
    ensures
        tick_at_sqrt_ratio_spec(sqrt_price_x96) == Ok::<i32, PoolError>(
            initialize_spec(
                view,
                factory,
                token0,
                token1,
                fee,
                tick_spacing,
                sqrt_price_x96,
            )->Ok_0.state->Some_0.tick,
        ),
{
}

/// A pool that was just initialized has no active liquidity.
pub proof fn init_liquidity_is_zero(
    view: PoolView,
    factory: Address,
    token0: Address,
    token1: Address,
    fee: u32,
    tick_spacing: i32,
    sqrt_price_x96: u128,
)
    requires
        initialize_spec(view, factory, token0, token1, fee, tick_spacing, sqrt_price_x96) is Ok,
    ensures
        initialize_spec(
            view,
            factory,
            token0,
            token1,
            fee,
            tick_spacing,
            sqrt_price_x96,
        )->Ok_0.state->Some_0.liquidity == 0,
{
}

/// A pool that was just initialized has seen no fees.
pub proof fn init_fee_growth_is_zero(
    view: PoolView,
    factory: Address,
    token0: Address,
    token1: Address,
    fee: u32,
    tick_spacing: i32,
    sqrt_price_x96: u128,
)
    requires
        initialize_spec(view, factory, token0, token1, fee, tick_spacing, sqrt_price_x96) is Ok,
    ensures
        ({
            let state = initialize_spec(
                view,
                factory,
                token0,
                token1,
                fee,
                tick_spacing,
                sqrt_price_x96,
            )->Ok_0.state->Some_0;
            state.fee_growth_global_0_x128 == 0 && state.fee_growth_global_1_x128 == 0
        }),
{
}

/// A pool that was just initialized keeps the fee and the tick spacing
/// it was given.
pub proof fn init_stores_tick_spacing(
    view: PoolView,
    factory: Address,
    token0: Address,
    token1: Address,
    fee: u32,
    tick_spacing: i32,
    sqrt_price_x96: u128,
)
    requires
        initialize_spec(view, factory, token0, token1, fee, tick_spacing, sqrt_price_x96) is Ok,
    ensures
        ({
            let config = initialize_spec(
                view,
                factory,
                token0,
                token1,
                fee,
                tick_spacing,
                sqrt_price_x96,
            )->Ok_0.config->Some_0;
            config.tick_spacing == tick_spacing && config.fee == fee && tick_spacing > 0
        }),
{
}

/// In every state of an initialized pool the tick lies in the tick
/// domain.
pub proof fn tick_in_valid_range(view: PoolView)
    requires
        view.wf(),
        view.state is Some,
    ensures
        MIN_TICK <= view.state->Some_0.tick <= MAX_TICK,
{
}

/// In every state of an initialized pool the tick spacing is positive.
pub proof fn tick_spacing_positive(view: PoolView)
    requires
        view.wf(),
        view.config is Some,
    ensures
        view.config->Some_0.tick_spacing > 0,
{
}

/// A tick that is marked as initialized holds liquidity.
pub proof fn initialized_tick_has_liquidity(view: PoolView, tick: i32)
    requires
        view.wf(),
        view.config is Some,
        tick_in(view.ticks, tick).initialized,
    ensures
        tick_in(view.ticks, tick).liquidity_gross > 0,
{
    crate::model::liquidity_net_bounded_by_gross(view, tick);
}

/// A tick that is not marked as initialized holds no liquidity.
pub proof fn uninitialized_tick_has_no_liquidity(view: PoolView, tick: i32)
    requires
        view.wf(),
        view.config is Some,
        !tick_in(view.ticks, tick).initialized,
    ensures
        tick_in(view.ticks, tick).liquidity_gross == 0,
        tick_in(view.ticks, tick).liquidity_net == 0,
{
    crate::model::liquidity_net_bounded_by_gross(view, tick);
}

/// A tick that is not in use reads as one that saw no fees.
pub proof fn tick_fee_growth_starts_zero(view: PoolView, tick: i32)
    requires
        view.wf(),
        view.config is Some,
        !tick_in(view.ticks, tick).initialized,
    ensures
        tick_in(view.ticks, tick).fee_growth_outside_0_x128 == 0,
        tick_in(view.ticks, tick).fee_growth_outside_1_x128 == 0,
{
    crate::model::liquidity_net_bounded_by_gross(view, tick);
}

/// A mint goes through only for a range whose lower end is under its
/// upper end, with both ends in the tick domain.
pub proof fn position_tick_bounds_valid(
    view: PoolView,
    owner: Address,
    tick_lower: i32,
    tick_upper: i32,
    amount: u128,
)
    requires
        mint_spec(view, owner, tick_lower, tick_upper, amount) is Ok,
    ensures
        MIN_TICK <= tick_lower < tick_upper <= MAX_TICK,
{
}

/// A mint goes through only for a range whose ends are on the tick
/// spacing of the pool.
pub proof fn position_ticks_aligned(
    view: PoolView,
    owner: Address,
    tick_lower: i32,
    tick_upper: i32,
    amount: u128,
)
    requires
        mint_spec(view, owner, tick_lower, tick_upper, amount) is Ok,
    ensures
        tick_lower as int % view.config->Some_0.tick_spacing as int == 0,
        tick_upper as int % view.config->Some_0.tick_spacing as int == 0,
{
}

/// A mint raises the liquidity of the position by the minted amount.
pub proof fn mint_increases_position_liquidity(
    view: PoolView,
    owner: Address,
    tick_lower: i32,
    tick_upper: i32,
    amount: u128,
)
    requires
        view.wf(),
        mint_spec(view, owner, tick_lower, tick_upper, amount) is Ok,
    ensures
        position_of(
            mint_spec(view, owner, tick_lower, tick_upper, amount)->Ok_0.0,
            owner,
            tick_lower,
            tick_upper,
        ).liquidity == position_of(view, owner, tick_lower, tick_upper).liquidity + amount,
{
    let key = PositionKey { owner, tick_lower, tick_upper };
    let change = liquidity_change_spec(
        view,
        view.config->Some_0,
        view.state->Some_0,
        key,
        amount as i128,
        true,
    )->Ok_0;
    lemma_stored_positions(view.positions, key, change.position);
}

/// A burn lowers the liquidity of the position by the burnt amount.
pub proof fn burn_decreases_position_liquidity(
    view: PoolView,
    owner: Address,
    tick_lower: i32,
    tick_upper: i32,
    amount: u128,
)
    requires
        view.wf(),
        burn_spec(view, owner, tick_lower, tick_upper, amount) is Ok,
    ensures
        position_of(
            burn_spec(view, owner, tick_lower, tick_upper, amount)->Ok_0.0,
            owner,
            tick_lower,
            tick_upper,
        ).liquidity == position_of(view, owner, tick_lower, tick_upper).liquidity - amount,
{
    let key = PositionKey { owner, tick_lower, tick_upper };
    let change = liquidity_change_spec(
        view,
        view.config->Some_0,
        view.state->Some_0,
        key,
        (-(amount as int)) as i128,
        false,
    )->Ok_0;
    let position = crate::liquidity::position_after_burn(change)->Ok_0;
    lemma_stored_positions(view.positions, key, position);
}

/// A burn goes through only for an amount that the position holds.
pub proof fn burn_bounded_by_position(
    view: PoolView,
    owner: Address,
    tick_lower: i32,
    tick_upper: i32,
    amount: u128,
)
    requires
        burn_spec(view, owner, tick_lower, tick_upper, amount) is Ok,
    ensures
        amount <= position_of(view, owner, tick_lower, tick_upper).liquidity,
{
}

/// A mint raises the net liquidity of the lower tick of its range by
/// the minted amount.
pub proof fn lower_tick_has_positive_net(
    view: PoolView,
    owner: Address,
    tick_lower: i32,
    tick_upper: i32,
    amount: u128,
)
    requires
        mint_spec(view, owner, tick_lower, tick_upper, amount) is Ok,
    ensures
        tick_in(
            mint_spec(view, owner, tick_lower, tick_upper, amount)->Ok_0.0.ticks,
            tick_lower,
        ).liquidity_net == tick_in(view.ticks, tick_lower).liquidity_net + amount,
{
}

/// A mint lowers the net liquidity of the upper tick of its range by
/// the minted amount.
pub proof fn upper_tick_has_negative_net(
    view: PoolView,
    owner: Address,
    tick_lower: i32,
    tick_upper: i32,
    amount: u128,
)
    requires
        mint_spec(view, owner, tick_lower, tick_upper, amount) is Ok,
    ensures
        tick_in(
            mint_spec(view, owner, tick_lower, tick_upper, amount)->Ok_0.0.ticks,
            tick_upper,
        ).liquidity_net == tick_in(view.ticks, tick_upper).liquidity_net - amount,
{
}

/// The steps of a swap keep, from the first to the last, what holds of
/// the state of the swap, and the active liquidity in step with the
/// positions.
pub proof fn lemma_swap_loop_keeps(
    view: PoolView,
    setting: SwapSetting,
    amount_specified: i128,
    st: SwapState,
    crossed: Seq<i32>,
)
    requires
        view.wf(),
        view.config is Some,
        setting.tick_spacing == view.config->Some_0.tick_spacing,
        setting.fee == view.config->Some_0.fee,
        swap_state_ok(setting, amount_specified, view.state->Some_0.sqrt_price_x96, st),
        st.liquidity as int == in_range_sum(view.positions, st.tick as int),
        swap_loop_spec(view.ticks, view.bitmap, setting, st, crossed) is Ok,
    ensures
        ({
            let last = swap_loop_spec(view.ticks, view.bitmap, setting, st, crossed)->Ok_0.0;
            &&& swap_state_ok(setting, amount_specified, view.state->Some_0.sqrt_price_x96, last)
            &&& last.liquidity as int == in_range_sum(view.positions, last.tick as int)
        }),
    decreases swap_measure(setting.zero_for_one, st.tick),
{
    if should_continue_swap_spec(
        st.amount_remaining,
        st.sqrt_price_x96,
        setting.sqrt_price_limit,
        crossed.len() as int,
    ) {
        let stepped = swap_step_spec(view.ticks, view.bitmap, setting, st)->Ok_0;
        lemma_swap_step_keeps(
            view.ticks,
            view.bitmap,
            setting,
            amount_specified,
            view.state->Some_0.sqrt_price_x96,
            st,
        );
        lemma_swap_step_keeps_liquidity(view, setting, amount_specified, st);
        if swap_measure(setting.zero_for_one, stepped.0.tick) < swap_measure(
            setting.zero_for_one,
            st.tick,
        ) {
            lemma_swap_loop_keeps(
                view,
                setting,
                amount_specified,
                stepped.0,
                with_crossing(crossed, stepped.1),
            );
        }
    }
}

/// What holds of the state at which a swap of a pool ends.
pub proof fn lemma_swap_outcome(
    view: PoolView,
    zero_for_one: bool,
    amount_specified: i128,
    sqrt_price_limit_x96: u128,
)
    requires
        view.wf(),
        swap_outcome(view, zero_for_one, amount_specified, sqrt_price_limit_x96) is Ok,
    ensures
        ({
            let last = swap_outcome(
                view,
                zero_for_one,
                amount_specified,
                sqrt_price_limit_x96,
            )->Ok_0.0;
            &&& swap_state_ok(
                SwapSetting {
                    zero_for_one,
                    exact_input: amount_specified > 0,
                    sqrt_price_limit: effective_limit(zero_for_one, sqrt_price_limit_x96),
                    fee: view.config->Some_0.fee,
                    tick_spacing: view.config->Some_0.tick_spacing,
                },
                amount_specified,
                view.state->Some_0.sqrt_price_x96,
                last,
            )
            &&& last.liquidity as int == in_range_sum(view.positions, last.tick as int)
        }),
        swap_spec(view, zero_for_one, amount_specified, sqrt_price_limit_x96) is Ok,
        swap_spec(view, zero_for_one, amount_specified, sqrt_price_limit_x96)->Ok_0.0.wf(),
{
    let state = view.state->Some_0;
    let setting = SwapSetting {
        zero_for_one,
        exact_input: amount_specified > 0,
        sqrt_price_limit: effective_limit(zero_for_one, sqrt_price_limit_x96),
        fee: view.config->Some_0.fee,
        tick_spacing: view.config->Some_0.tick_spacing,
    };
    let start = SwapState {
        amount_remaining: amount_specified,
        amount_calculated: 0,
        sqrt_price_x96: state.sqrt_price_x96,
        tick: state.tick,
        liquidity: state.liquidity,
        fee_growth_global_x128: if zero_for_one {
            state.fee_growth_global_0_x128
        } else {
            state.fee_growth_global_1_x128
        },
    };
    lemma_swap_loop_keeps(view, setting, amount_specified, start, Seq::empty());
    let outcome = swap_outcome(view, zero_for_one, amount_specified, sqrt_price_limit_x96)->Ok_0;
    lemma_swap_keeps_wf(view, setting, amount_specified, outcome.0, outcome.1);
}

/// A swap of token0 for token1 does not raise the price.
pub proof fn zero_for_one_decreases_price(
    view: PoolView,
    amount_specified: i128,
    sqrt_price_limit_x96: u128,
)
    requires
        view.wf(),
        swap_spec(view, true, amount_specified, sqrt_price_limit_x96) is Ok,
    ensures
        swap_spec(
            view,
            true,
            amount_specified,
            sqrt_price_limit_x96,
        )->Ok_0.0.state->Some_0.sqrt_price_x96 <= view.state->Some_0.sqrt_price_x96,
{
    lemma_swap_outcome(view, true, amount_specified, sqrt_price_limit_x96);
}

/// A swap of token1 for token0 does not lower the price.
pub proof fn one_for_zero_increases_price(
    view: PoolView,
    amount_specified: i128,
    sqrt_price_limit_x96: u128,
)
    requires
        view.wf(),
        swap_spec(view, false, amount_specified, sqrt_price_limit_x96) is Ok,
    ensures
        swap_spec(
            view,
            false,
            amount_specified,
            sqrt_price_limit_x96,
        )->Ok_0.0.state->Some_0.sqrt_price_x96 >= view.state->Some_0.sqrt_price_x96,
{
    lemma_swap_outcome(view, false, amount_specified, sqrt_price_limit_x96);
}

/// A swap never moves the price past its limit.
pub proof fn swap_respects_price_limit(
    view: PoolView,
    zero_for_one: bool,
    amount_specified: i128,
    sqrt_price_limit_x96: u128,
)
    requires
        view.wf(),
        swap_spec(view, zero_for_one, amount_specified, sqrt_price_limit_x96) is Ok,
    ensures
        ({
            let after = swap_spec(
                view,
                zero_for_one,
                amount_specified,
                sqrt_price_limit_x96,
            )->Ok_0.0.state->Some_0;
            let limit = effective_limit(zero_for_one, sqrt_price_limit_x96);
            if zero_for_one {
                after.sqrt_price_x96 >= limit
            } else {
                after.sqrt_price_x96 <= limit
            }
        }),
{
    lemma_swap_outcome(view, zero_for_one, amount_specified, sqrt_price_limit_x96);
}

/// Of the two amounts that a swap moves, the caller pays the one of the
/// token that goes in and receives the one of the token that comes out:
/// token0 is not negative and token1 not positive for a swap of token0
/// for token1, and the other way round for the other swap.
pub proof fn swap_amounts_opposite_signs(
    view: PoolView,
    zero_for_one: bool,
    amount_specified: i128,
    sqrt_price_limit_x96: u128,
)
    requires
        view.wf(),
        swap_spec(view, zero_for_one, amount_specified, sqrt_price_limit_x96) is Ok,
    ensures
        ({
            let amounts = swap_spec(
                view,
                zero_for_one,
                amount_specified,
                sqrt_price_limit_x96,
            )->Ok_0.1;
            if zero_for_one {
                amounts.0 >= 0 && amounts.1 <= 0
            } else {
                amounts.0 <= 0 && amounts.1 >= 0
            }
        }),
{
    lemma_swap_outcome(view, zero_for_one, amount_specified, sqrt_price_limit_x96);
}

/// After a swap the tick is the tick of the price, or the tick just
/// below it.
pub proof fn tick_consistent_after_swap(
    view: PoolView,
    zero_for_one: bool,
    amount_specified: i128,
    sqrt_price_limit_x96: u128,
)
    requires
        view.wf(),
        swap_spec(view, zero_for_one, amount_specified, sqrt_price_limit_x96) is Ok,
    ensures
        ({
            let after = swap_spec(
                view,
                zero_for_one,
                amount_specified,
                sqrt_price_limit_x96,
            )->Ok_0.0.state->Some_0;
            let of_price = tick_at_sqrt_ratio_spec(after.sqrt_price_x96);
            of_price is Ok && (after.tick == of_price->Ok_0 || after.tick + 1 == of_price->Ok_0)
        }),
{
    lemma_swap_outcome(view, zero_for_one, amount_specified, sqrt_price_limit_x96);
    crate::model::tick_consistent_with_price(
        swap_spec(view, zero_for_one, amount_specified, sqrt_price_limit_x96)->Ok_0.0,
    );
}

/// A swap leaves the fee growth of the token that comes out as it was.
pub proof fn fee_growth_of_the_output_token_stays(
    view: PoolView,
    zero_for_one: bool,
    amount_specified: i128,
    sqrt_price_limit_x96: u128,
)
    requires
        swap_spec(view, zero_for_one, amount_specified, sqrt_price_limit_x96) is Ok,
    ensures
        ({
            let before = view.state->Some_0;
            let after = swap_spec(
                view,
                zero_for_one,
                amount_specified,
                sqrt_price_limit_x96,
            )->Ok_0.0.state->Some_0;
            if zero_for_one {
                after.fee_growth_global_1_x128 == before.fee_growth_global_1_x128
            } else {
                after.fee_growth_global_0_x128 == before.fee_growth_global_0_x128
            }
        }),
{
}

/// A step of a swap after which the swap goes on moves the tick
/// towards the side the swap goes to.
pub proof fn lemma_swap_step_progresses(
    ticks: Map<i32, TickInfo>,
    bitmap: Map<i32, u128>,
    setting: SwapSetting,
    amount_specified: i128,
    start_price: u128,
    st: SwapState,
    crossings: int,
)
    requires
        swap_state_ok(setting, amount_specified, start_price, st),
        st.amount_remaining != 0,
        0 < setting.tick_spacing <= crate::constants::MAX_TICK_SPACING,
        setting.fee < crate::constants::FEE_DENOMINATOR,
        swap_step_spec(ticks, bitmap, setting, st) is Ok,
        should_continue_swap_spec(
            swap_step_spec(ticks, bitmap, setting, st)->Ok_0.0.amount_remaining,
            swap_step_spec(ticks, bitmap, setting, st)->Ok_0.0.sqrt_price_x96,
            setting.sqrt_price_limit,
            crossings,
        ),
    ensures
        swap_measure(setting.zero_for_one, swap_step_spec(ticks, bitmap, setting, st)->Ok_0.0.tick)
            < swap_measure(setting.zero_for_one, st.tick),
{
    reveal(swap_step_spec);
    let zero_for_one = setting.zero_for_one;
    let tick_next = crate::swap::step_next_tick(bitmap, setting, st.tick).0;
    let price_next = crate::tick_math::sqrt_ratio_at_tick_spec(tick_next as int) as u128;
    let target = crate::swap::step_target_price_spec(
        price_next,
        setting.sqrt_price_limit,
        zero_for_one,
    );
    lemma_swap_step_keeps(ticks, bitmap, setting, amount_specified, start_price, st);
    if st.amount_remaining > 0 {
        crate::swap_math::lemma_swap_step_budget(
            st.sqrt_price_x96,
            target,
            st.liquidity,
            st.amount_remaining,
            setting.fee,
        );
    } else {
        crate::swap_math::lemma_swap_step_fills(
            st.sqrt_price_x96,
            target,
            st.liquidity,
            st.amount_remaining,
            setting.fee,
        );
    }
}

/// A swap ends only where the amount is used up, the price is at the
/// limit, or the cap on crossed ticks is reached: it never halts for
/// want of progress.
pub proof fn lemma_swap_loop_runs_to_its_end(
    view: PoolView,
    setting: SwapSetting,
    amount_specified: i128,
    st: SwapState,
    crossed: Seq<i32>,
)
    requires
        view.wf(),
        view.config is Some,
        setting.tick_spacing == view.config->Some_0.tick_spacing,
        setting.fee == view.config->Some_0.fee,
        setting.exact_input == (amount_specified > 0),
        swap_state_ok(setting, amount_specified, view.state->Some_0.sqrt_price_x96, st),
        swap_loop_spec(view.ticks, view.bitmap, setting, st, crossed) is Ok,
    ensures
        ({
            let end = swap_loop_spec(view.ticks, view.bitmap, setting, st, crossed)->Ok_0;
            !should_continue_swap_spec(
                end.0.amount_remaining,
                end.0.sqrt_price_x96,
                setting.sqrt_price_limit,
                end.1.len() as int,
            )
        }),
    decreases swap_measure(setting.zero_for_one, st.tick),
{
    if should_continue_swap_spec(
        st.amount_remaining,
        st.sqrt_price_x96,
        setting.sqrt_price_limit,
        crossed.len() as int,
    ) {
        let stepped = swap_step_spec(view.ticks, view.bitmap, setting, st)->Ok_0;
        let onward = with_crossing(crossed, stepped.1);
        lemma_swap_step_keeps(
            view.ticks,
            view.bitmap,
            setting,
            amount_specified,
            view.state->Some_0.sqrt_price_x96,
            st,
        );
        if should_continue_swap_spec(
            stepped.0.amount_remaining,
            stepped.0.sqrt_price_x96,
            setting.sqrt_price_limit,
            onward.len() as int,
        ) {
            lemma_swap_step_progresses(
                view.ticks,
                view.bitmap,
                setting,
                amount_specified,
                view.state->Some_0.sqrt_price_x96,
                st,
                onward.len() as int,
            );
        }
        if swap_measure(setting.zero_for_one, stepped.0.tick) < swap_measure(
            setting.zero_for_one,
            st.tick,
        ) {
            lemma_swap_loop_runs_to_its_end(view, setting, amount_specified, stepped.0, onward);
        }
    }
}

/// A swap of a pool ends with the specified amount used up, with the
/// price at the limit, or with as many ticks crossed as a swap may
/// cross; in the last case it is filled in part.
pub proof fn swap_runs_to_its_end(
    view: PoolView,
    zero_for_one: bool,
    amount_specified: i128,
    sqrt_price_limit_x96: u128,
)
    requires
        view.wf(),
        swap_outcome(view, zero_for_one, amount_specified, sqrt_price_limit_x96) is Ok,
    ensures
        ({
            let end = swap_outcome(view, zero_for_one, amount_specified, sqrt_price_limit_x96)->Ok_0;
            ||| end.0.amount_remaining == 0
            ||| end.0.sqrt_price_x96 == effective_limit(zero_for_one, sqrt_price_limit_x96)
            ||| end.1.len() >= crate::constants::MAX_TICK_CROSSINGS_PER_SWAP
        }),
{
    let state = view.state->Some_0;
    let setting = SwapSetting {
        zero_for_one,
        exact_input: amount_specified > 0,
        sqrt_price_limit: effective_limit(zero_for_one, sqrt_price_limit_x96),
        fee: view.config->Some_0.fee,
        tick_spacing: view.config->Some_0.tick_spacing,
    };
    let start = SwapState {
        amount_remaining: amount_specified,
        amount_calculated: 0,
        sqrt_price_x96: state.sqrt_price_x96,
        tick: state.tick,
        liquidity: state.liquidity,
        fee_growth_global_x128: if zero_for_one {
            state.fee_growth_global_0_x128
        } else {
            state.fee_growth_global_1_x128
        },
    };
    lemma_swap_loop_runs_to_its_end(view, setting, amount_specified, start, Seq::empty());
}

/// The growth of the fee accumulator over the steps of a swap from a
/// state on, added up without wrapping.
pub open spec fn swap_fee_growth(
    ticks: Map<i32, TickInfo>,
    bitmap: Map<i32, u128>,
    setting: SwapSetting,
    st: SwapState,
    crossings: int,
) -> int
    decreases swap_measure(setting.zero_for_one, st.tick),
{
    if !should_continue_swap_spec(
        st.amount_remaining,
        st.sqrt_price_x96,
        setting.sqrt_price_limit,
        crossings,
    ) {
        0
    } else {
        match swap_step_spec(ticks, bitmap, setting, st) {
            Err(_) => 0,
            Ok((next, crossing)) => {
                let grown = crate::tick::wrapping_diff(
                    next.fee_growth_global_x128,
                    st.fee_growth_global_x128,
                ) as int;
                if swap_measure(setting.zero_for_one, next.tick) < swap_measure(
                    setting.zero_for_one,
                    st.tick,
                ) {
                    grown + swap_fee_growth(
                        ticks,
                        bitmap,
                        setting,
                        next,
                        crossings + (if crossing is Some {
                            1int
                        } else {
                            0int
                        }),
                    )
                } else {
                    grown
                }
            },
        }
    }
}

/// The way from one value of an accumulator to another, modulo 2^128,
/// is the way to a value between them and on from there.
pub proof fn lemma_wrapping_diff_chain(a: u128, b: u128, c: u128, rest: int)
    requires
        rest >= 0,
        crate::tick::wrapping_diff(c, b) as int == rest % crate::wide::limb(),
    ensures
        crate::tick::wrapping_diff(c, a) as int == (crate::tick::wrapping_diff(b, a) + rest)
            % crate::wide::limb(),
{
}

/// Over the steps of a swap the fee accumulator moves by the growth of
/// all steps together, modulo 2^128.
pub proof fn lemma_swap_fee_growth(
    ticks: Map<i32, TickInfo>,
    bitmap: Map<i32, u128>,
    setting: SwapSetting,
    st: SwapState,
    crossed: Seq<i32>,
)
    requires
        swap_loop_spec(ticks, bitmap, setting, st, crossed) is Ok,
    ensures
        swap_fee_growth(ticks, bitmap, setting, st, crossed.len() as int) >= 0,
        crate::tick::wrapping_diff(
            swap_loop_spec(ticks, bitmap, setting, st, crossed)->Ok_0.0.fee_growth_global_x128,
            st.fee_growth_global_x128,
        ) as int == swap_fee_growth(ticks, bitmap, setting, st, crossed.len() as int)
            % crate::wide::limb(),
    decreases swap_measure(setting.zero_for_one, st.tick),
{
    if should_continue_swap_spec(
        st.amount_remaining,
        st.sqrt_price_x96,
        setting.sqrt_price_limit,
        crossed.len() as int,
    ) {
        let stepped = swap_step_spec(ticks, bitmap, setting, st)->Ok_0;
        if swap_measure(setting.zero_for_one, stepped.0.tick) < swap_measure(
            setting.zero_for_one,
            st.tick,
        ) {
            let onward = with_crossing(crossed, stepped.1);
            lemma_swap_fee_growth(ticks, bitmap, setting, stepped.0, onward);
            lemma_wrapping_diff_chain(
                st.fee_growth_global_x128,
                stepped.0.fee_growth_global_x128,
                swap_loop_spec(ticks, bitmap, setting, st, crossed)->Ok_0.0.fee_growth_global_x128,
                swap_fee_growth(ticks, bitmap, setting, stepped.0, onward.len() as int),
            );
        }
    }
}

/// A swap moves the fee accumulator of the token that goes in forward,
/// as long as the growth of all its steps together stays under 2^127:
/// the new value less the old one, modulo 2^128, is that growth.
pub proof fn fee_growth_monotonic_after_swap(
    view: PoolView,
    zero_for_one: bool,
    amount_specified: i128,
    sqrt_price_limit_x96: u128,
)
    requires
        swap_spec(view, zero_for_one, amount_specified, sqrt_price_limit_x96) is Ok,
        swap_fee_growth(
            view.ticks,
            view.bitmap,
            SwapSetting {
                zero_for_one,
                exact_input: amount_specified > 0,
                sqrt_price_limit: effective_limit(zero_for_one, sqrt_price_limit_x96),
                fee: view.config->Some_0.fee,
                tick_spacing: view.config->Some_0.tick_spacing,
            },
            SwapState {
                amount_remaining: amount_specified,
                amount_calculated: 0,
                sqrt_price_x96: view.state->Some_0.sqrt_price_x96,
                tick: view.state->Some_0.tick,
                liquidity: view.state->Some_0.liquidity,
                fee_growth_global_x128: if zero_for_one {
                    view.state->Some_0.fee_growth_global_0_x128
                } else {
                    view.state->Some_0.fee_growth_global_1_x128
                },
            },
            0,
        ) < 0x8000_0000_0000_0000_0000_0000_0000_0000,
    ensures
        ({
            let before = view.state->Some_0;
            let after = swap_spec(
                view,
                zero_for_one,
                amount_specified,
                sqrt_price_limit_x96,
            )->Ok_0.0.state->Some_0;
            if zero_for_one {
                crate::tick::wrapping_diff(
                    after.fee_growth_global_0_x128,
                    before.fee_growth_global_0_x128,
                ) < 0x8000_0000_0000_0000_0000_0000_0000_0000
            } else {
                crate::tick::wrapping_diff(
                    after.fee_growth_global_1_x128,
                    before.fee_growth_global_1_x128,
                ) < 0x8000_0000_0000_0000_0000_0000_0000_0000
            }
        }),
{
    let state = view.state->Some_0;
    let setting = SwapSetting {
        zero_for_one,
        exact_input: amount_specified > 0,
        sqrt_price_limit: effective_limit(zero_for_one, sqrt_price_limit_x96),
        fee: view.config->Some_0.fee,
        tick_spacing: view.config->Some_0.tick_spacing,
    };
    let start = SwapState {
        amount_remaining: amount_specified,
        amount_calculated: 0,
        sqrt_price_x96: state.sqrt_price_x96,
        tick: state.tick,
        liquidity: state.liquidity,
        fee_growth_global_x128: if zero_for_one {
            state.fee_growth_global_0_x128
        } else {
            state.fee_growth_global_1_x128
        },
    };
    lemma_swap_fee_growth(view.ticks, view.bitmap, setting, start, Seq::empty());
}

} // verus!
