//! Minting, burning and collecting: the operations by which providers
//! put liquidity into a range of ticks and take it, and their fees, out.

use vstd::prelude::*;
use crate::constants::{MAX_TICK, MIN_TICK};
use crate::error::PoolError;
use crate::liquidity_math::{
    add_delta, add_delta_spec, amounts_for_liquidity_spec, get_amounts_for_liquidity_rounded,
};
use crate::model::PoolView;
use crate::position::{compute_position_update, updated_position};
use crate::storage::{
    get_config, get_position, get_state, get_tick, keys_unique, position_in, set_position,
    set_state, set_tick, stored_positions, tick_in, PoolStorage,
};
use crate::tick::{
    compute_fee_growth_above, compute_fee_growth_below, compute_fee_growth_inside_pure,
    bitmap_flipped, compute_liquidity_after_update, fee_growth_inside_spec, flip_tick,
    ticks_with, updated_tick,
};
use crate::tick_math::{get_sqrt_ratio_at_tick, sqrt_ratio_at_tick_spec};
use crate::types::{Address, PoolConfig, PoolState, PositionInfo, PositionKey, TickInfo};

verus! {

/// Whether two ticks are the ends of a range of the pool: in order, in
/// the tick domain, and on the spacing.
pub open spec fn ticks_valid(tick_lower: i32, tick_upper: i32, tick_spacing: i32) -> bool {
    &&& tick_lower < tick_upper
    &&& tick_lower >= MIN_TICK
    &&& tick_upper <= MAX_TICK
    &&& tick_lower as int % tick_spacing as int == 0
    &&& tick_upper as int % tick_spacing as int == 0
}

/// Whether a tick is a multiple of the spacing.
fn on_spacing(tick: i32, tick_spacing: i32) -> (r: bool)
    requires
        tick_spacing > 0,
    ensures
        r == (tick as int % tick_spacing as int == 0),
{
    crate::invariants::tick_on_spacing(tick, tick_spacing)
}

/// Checks the ends of a range; fails with `BadTickRange` unless they
/// are in order, in the tick domain, and on the spacing.
pub fn validate_ticks(tick_lower: i32, tick_upper: i32, tick_spacing: i32) -> (r: Result<
    (),
    PoolError,
>)
    requires
        tick_spacing > 0,
    ensures
        r == (if ticks_valid(tick_lower, tick_upper, tick_spacing) {
            Ok::<(), PoolError>(())
        } else {
            Err(PoolError::BadTickRange)
        }),
{
    if tick_lower >= tick_upper {
        return Err(PoolError::BadTickRange);
    }
    if tick_lower < MIN_TICK {
        return Err(PoolError::BadTickRange);
    }
    if tick_upper > MAX_TICK {
        return Err(PoolError::BadTickRange);
    }
    if !on_spacing(tick_lower, tick_spacing) {
        return Err(PoolError::BadTickRange);
    }
    if !on_spacing(tick_upper, tick_spacing) {
        return Err(PoolError::BadTickRange);
    }
    Ok(())
}

/// What a change of the liquidity of a position does to the pool: the
/// new records of the two ticks and of the position, the new active
/// liquidity, and the token amounts that go with the change.
#[derive(Clone, Copy, Debug, PartialEq, Eq, Structural)]
pub struct LiquidityChange {
    pub lower: TickInfo,
    pub upper: TickInfo,
    pub flipped_lower: bool,
    pub flipped_upper: bool,
    pub position: PositionInfo,
    pub liquidity: u128,
    pub amount0: u128,
    pub amount1: u128,
}

/// The record of a tick as the store hands it out once it is stored: a
/// record without liquidity is not kept.
pub open spec fn as_stored(info: TickInfo) -> TickInfo {
    if info.liquidity_gross == 0 {
        TickInfo::empty()
    } else {
        info
    }
}

/// The active liquidity after the liquidity of a range changes: the
/// change counts while the current tick is inside the range.
pub open spec fn active_liquidity_after(
    state: PoolState,
    key: PositionKey,
    liquidity_delta: i128,
) -> Result<u128, PoolError> {
    if liquidity_delta != 0 && key.tick_lower <= state.tick < key.tick_upper {
        add_delta_spec(state.liquidity, liquidity_delta)
    } else {
        Ok(state.liquidity)
    }
}

/// The new record of a position, by the new records of its two ticks.
pub open spec fn position_after(
    view: PoolView,
    state: PoolState,
    key: PositionKey,
    liquidity_delta: i128,
    lower: TickInfo,
    upper: TickInfo,
) -> Result<PositionInfo, PoolError> {
    let inside = fee_growth_inside_spec(
        as_stored(lower),
        as_stored(upper),
        key.tick_lower,
        key.tick_upper,
        state.tick,
        state.fee_growth_global_0_x128,
        state.fee_growth_global_1_x128,
    );
    updated_position(position_in(view.positions, key), liquidity_delta, inside.0, inside.1)
}

/// The two ticks of a range after its liquidity changes; a change of
/// zero leaves them as they are.
pub open spec fn range_ticks_after(
    view: PoolView,
    config: PoolConfig,
    state: PoolState,
    key: PositionKey,
    liquidity_delta: i128,
) -> Result<((TickInfo, bool), (TickInfo, bool)), PoolError> {
    if liquidity_delta == 0 {
        Ok(
            (
                (tick_in(view.ticks, key.tick_lower), false),
                (tick_in(view.ticks, key.tick_upper), false),
            ),
        )
    } else {
        match updated_tick(
            tick_in(view.ticks, key.tick_lower),
            key.tick_lower,
            state.tick,
            liquidity_delta,
            state.fee_growth_global_0_x128,
            state.fee_growth_global_1_x128,
            false,
            config.max_liquidity_per_tick,
        ) {
            Err(e) => Err(e),
            Ok(lower) => match updated_tick(
                tick_in(view.ticks, key.tick_upper),
                key.tick_upper,
                state.tick,
                liquidity_delta,
                state.fee_growth_global_0_x128,
                state.fee_growth_global_1_x128,
                true,
                config.max_liquidity_per_tick,
            ) {
                Err(e) => Err(e),
                Ok(upper) => Ok((lower, upper)),
            },
        }
    }
}

/// What a change of the liquidity of a position does to a pool, for a
/// range that `ticks_valid` accepts. Minting rounds the amounts up and
/// settles the position before the active liquidity; burning rounds
/// them down and settles the active liquidity first.
pub open spec fn liquidity_change_spec(
    view: PoolView,
    config: PoolConfig,
    state: PoolState,
    key: PositionKey,
    liquidity_delta: i128,
    minting: bool,
) -> Result<LiquidityChange, PoolError> {
    match amounts_for_liquidity_spec(
        state.sqrt_price_x96,
        sqrt_ratio_at_tick_spec(key.tick_lower as int) as u128,
        sqrt_ratio_at_tick_spec(key.tick_upper as int) as u128,
        crate::liquidity_math::magnitude(liquidity_delta),
        minting,
    ) {
        Err(e) => Err(e),
        Ok(amounts) => match range_ticks_after(view, config, state, key, liquidity_delta) {
            Err(e) => Err(e),
            Ok((lower, upper)) => {
                let position = position_after(view, state, key, liquidity_delta, lower.0, upper.0);
                let liquidity = active_liquidity_after(state, key, liquidity_delta);
                let first = if minting {
                    position is Err
                } else {
                    liquidity is Ok && position is Err
                };
                if first {
                    Err(position->Err_0)
                } else if liquidity is Err {
                    Err(liquidity->Err_0)
                } else if position is Err {
                    Err(position->Err_0)
                } else {
                    Ok(
                        LiquidityChange {
                            lower: lower.0,
                            upper: upper.0,
                            flipped_lower: lower.1,
                            flipped_upper: upper.1,
                            position: position->Ok_0,
                            liquidity: liquidity->Ok_0,
                            amount0: amounts.0,
                            amount1: amounts.1,
                        },
                    )
                }
            },
        },
    }
}

/// The bitmap after the bit of a tick is toggled, where `flipped` says
/// to toggle it.
pub open spec fn bitmap_after(
    bitmap: Map<i32, u128>,
    tick: i32,
    tick_spacing: i32,
    flipped: bool,
) -> Map<i32, u128> {
    if flipped {
        bitmap_flipped(bitmap, tick, tick_spacing)
    } else {
        bitmap
    }
}

/// The pool after a change of the liquidity of a position is applied.
pub open spec fn applied_change(
    view: PoolView,
    config: PoolConfig,
    state: PoolState,
    key: PositionKey,
    change: LiquidityChange,
    position: PositionInfo,
    touch_ticks: bool,
) -> PoolView {
    PoolView {
        config: view.config,
        state: Some(PoolState { liquidity: change.liquidity, ..state }),
        ticks: if touch_ticks {
            ticks_with(
                ticks_with(view.ticks, key.tick_lower, change.lower),
                key.tick_upper,
                change.upper,
            )
        } else {
            view.ticks
        },
        bitmap: bitmap_after(
            bitmap_after(view.bitmap, key.tick_lower, config.tick_spacing, change.flipped_lower),
            key.tick_upper,
            config.tick_spacing,
            change.flipped_upper,
        ),
        positions: stored_positions(view.positions, key, position),
    }
}

/// The new record of a tick of a range.
fn plan_tick(
    store: &PoolStorage,
    config: &PoolConfig,
    state: &PoolState,
    tick: i32,
    liquidity_delta: i128,
    upper: bool,
) -> (r: Result<(TickInfo, bool), PoolError>)
    ensures
        r == updated_tick(
            store.tick_at(tick),
            tick,
            state.tick,
            liquidity_delta,
            state.fee_growth_global_0_x128,
            state.fee_growth_global_1_x128,
            upper,
            config.max_liquidity_per_tick,
        ),
{
    let mut info = get_tick(store, tick);
    let (liquidity_gross_after, liquidity_net_after, flipped, should_init_fee_growth) =
        compute_liquidity_after_update(
        info.liquidity_gross,
        info.liquidity_net,
        liquidity_delta,
        upper,
        config.max_liquidity_per_tick,
        tick,
        state.tick,
    )?;
    if should_init_fee_growth {
        info.fee_growth_outside_0_x128 = state.fee_growth_global_0_x128;
        info.fee_growth_outside_1_x128 = state.fee_growth_global_1_x128;
    }
    if info.liquidity_gross == 0 && liquidity_gross_after > 0 {
        info.initialized = true;
    }
    info.liquidity_gross = liquidity_gross_after;
    info.liquidity_net = liquidity_net_after;
    Ok((info, flipped))
}

/// The record of a tick as the store hands it out once it is stored.
fn stored_tick(info: &TickInfo) -> (r: TickInfo)
    ensures
        r == as_stored(*info),
{
    if info.liquidity_gross == 0 {
        TickInfo::new()
    } else {
        *info
    }
}

/// Fee growth inside a range, from the records of its two ticks.
fn fee_growth_inside_of(
    lower: &TickInfo,
    upper: &TickInfo,
    tick_lower: i32,
    tick_upper: i32,
    state: &PoolState,
) -> (r: (u128, u128))
    ensures
        r == fee_growth_inside_spec(
            *lower,
            *upper,
            tick_lower,
            tick_upper,
            state.tick,
            state.fee_growth_global_0_x128,
            state.fee_growth_global_1_x128,
        ),
{
    let (below_0, below_1) = compute_fee_growth_below(
        tick_lower,
        state.tick,
        lower.fee_growth_outside_0_x128,
        lower.fee_growth_outside_1_x128,
        state.fee_growth_global_0_x128,
        state.fee_growth_global_1_x128,
    );
    let (above_0, above_1) = compute_fee_growth_above(
        tick_upper,
        state.tick,
        upper.fee_growth_outside_0_x128,
        upper.fee_growth_outside_1_x128,
        state.fee_growth_global_0_x128,
        state.fee_growth_global_1_x128,
    );
    compute_fee_growth_inside_pure(
        below_0,
        below_1,
        above_0,
        above_1,
        state.fee_growth_global_0_x128,
        state.fee_growth_global_1_x128,
    )
}

/// Works out what a change of the liquidity of a position does to the
/// pool, without touching the store.
fn plan_liquidity_change(
    store: &PoolStorage,
    config: &PoolConfig,
    state: &PoolState,
    key: &PositionKey,
    liquidity_delta: i128,
    minting: bool,
) -> (r: Result<LiquidityChange, PoolError>)
    requires
        ticks_valid(key.tick_lower, key.tick_upper, config.tick_spacing),
    ensures
        r == liquidity_change_spec(store@, *config, *state, *key, liquidity_delta, minting),
{
    let sqrt_ratio_lower = get_sqrt_ratio_at_tick(key.tick_lower);
    let sqrt_ratio_upper = get_sqrt_ratio_at_tick(key.tick_upper);
    let (amount0, amount1) = get_amounts_for_liquidity_rounded(
        state.sqrt_price_x96,
        sqrt_ratio_lower,
        sqrt_ratio_upper,
        crate::liquidity_math::unsigned_abs(liquidity_delta),
        minting,
    )?;
    let ((lower, flipped_lower), (upper, flipped_upper)) = if liquidity_delta == 0 {
        ((get_tick(store, key.tick_lower), false), (get_tick(store, key.tick_upper), false))
    } else {
        let lower = plan_tick(store, config, state, key.tick_lower, liquidity_delta, false)?;
        let upper = plan_tick(store, config, state, key.tick_upper, liquidity_delta, true)?;
        (lower, upper)
    };
    let (inside_0, inside_1) = fee_growth_inside_of(
        &stored_tick(&lower),
        &stored_tick(&upper),
        key.tick_lower,
        key.tick_upper,
        state,
    );
    let current = get_position(store, key);
    let position = compute_position_update(&current, liquidity_delta, inside_0, inside_1);
    let in_range = liquidity_delta != 0 && state.tick >= key.tick_lower && state.tick
        < key.tick_upper;
    let liquidity = if in_range {
        add_delta(state.liquidity, liquidity_delta)
    } else {
        Ok(state.liquidity)
    };
    let (position, liquidity) = if minting {
        let position = position?;
        (position, liquidity?)
    } else {
        let liquidity = liquidity?;
        (position?, liquidity)
    };
    Ok(
        LiquidityChange {
            lower,
            upper,
            flipped_lower,
            flipped_upper,
            position,
            liquidity,
            amount0,
            amount1,
        },
    )
}

/// Writes a change of the liquidity of a position to the store.
fn apply_liquidity_change(
    store: &mut PoolStorage,
    config: &PoolConfig,
    state: &PoolState,
    key: &PositionKey,
    change: &LiquidityChange,
    position: &PositionInfo,
    touch_ticks: bool,
)
    requires
        keys_unique(old(store).positions@),
        config.tick_spacing > 0,
        key.tick_lower as int % config.tick_spacing as int == 0,
        key.tick_upper as int % config.tick_spacing as int == 0,
    ensures
        final(store)@ == applied_change(
            old(store)@,
            *config,
            *state,
            *key,
            *change,
            *position,
            touch_ticks,
        ),
{
    if touch_ticks {
        set_tick(store, key.tick_lower, &change.lower);
        set_tick(store, key.tick_upper, &change.upper);
    }
    if change.flipped_lower {
        flip_tick(store, key.tick_lower, config.tick_spacing);
    }
    if change.flipped_upper {
        flip_tick(store, key.tick_upper, config.tick_spacing);
    }
    set_position(store, key, position);
    let mut next = *state;
    next.liquidity = change.liquidity;
    set_state(store, &next);
}

/// Applying a change of the liquidity of a position to a pool keeps
/// everything that holds of the pool. The position may be stored with
/// other owed tokens than the change worked out, as long as its
/// liquidity is that of the change.
pub proof fn lemma_liquidity_change_keeps_wf(
    view: PoolView,
    config: PoolConfig,
    state: PoolState,
    key: PositionKey,
    liquidity_delta: i128,
    minting: bool,
    change: LiquidityChange,
    position: PositionInfo,
)
    requires
        view.wf(),
        view.config == Some(config),
        view.state == Some(state),
        ticks_valid(key.tick_lower, key.tick_upper, config.tick_spacing),
        liquidity_change_spec(view, config, state, key, liquidity_delta, minting) == Ok::<
            LiquidityChange,
            PoolError,
        >(change),
        position.liquidity == change.position.liquidity,
    ensures
        applied_change(view, config, state, key, change, position, liquidity_delta != 0).wf(),
{
    let touch = liquidity_delta != 0;
    let after = applied_change(view, config, state, key, change, position, touch);
    let tl = key.tick_lower;
    let tu = key.tick_upper;
    let before_lower = tick_in(view.ticks, tl);
    let before_upper = tick_in(view.ticks, tu);
    let ticks1 = if touch {
        ticks_with(view.ticks, tl, change.lower)
    } else {
        view.ticks
    };
    let bitmap1 = bitmap_after(view.bitmap, tl, config.tick_spacing, change.flipped_lower);
    let min = MIN_TICK as int;
    let max = MAX_TICK + 1;

    // the positions
    crate::storage::lemma_stored_positions(view.positions, key, position);
    crate::model::lemma_stored_entries(view.positions, key, position);
    crate::model::lemma_in_range_sum_stored(view.positions, key, position, state.tick as int);
    assert(crate::model::positions_wf(after.positions));
    assert forall|tick: i32, upper: bool|
        #[trigger] crate::model::end_sum(after.positions, tick, upper) == crate::model::end_sum(
            view.positions,
            tick,
            upper,
        ) + (if crate::model::range_end(key, upper) == tick {
            liquidity_delta as int
        } else {
            0
        }) && crate::model::end_sum(after.positions, tick, upper) >= 0 by {
        crate::model::lemma_end_sum_stored(view.positions, key, position, tick, upper);
        crate::model::lemma_end_sum_nonnegative(after.positions, tick, upper);
    }
    assert forall|tick: i32, upper: bool| #[trigger]
        crate::model::end_sum(view.positions, tick, upper) >= 0 by {
        crate::model::lemma_end_sum_nonnegative(view.positions, tick, upper);
    }
    assert(before_lower.liquidity_gross as int == crate::model::end_sum(
        view.positions,
        tl,
        false,
    ) + crate::model::end_sum(view.positions, tl, true));
    assert(before_upper.liquidity_gross as int == crate::model::end_sum(
        view.positions,
        tu,
        false,
    ) + crate::model::end_sum(view.positions, tu, true));
    assert(crate::model::end_sum(after.positions, tl, false) >= 0);
    assert(crate::model::end_sum(after.positions, tu, true) >= 0);
    assert(crate::model::end_sum(after.positions, tl, true) == crate::model::end_sum(
        view.positions,
        tl,
        true,
    ));
    assert(crate::model::end_sum(after.positions, tu, false) == crate::model::end_sum(
        view.positions,
        tu,
        false,
    ));

    // the ticks and the bitmap
    if touch {
        crate::model::lemma_tick_step(
            view.ticks,
            view.bitmap,
            config,
            tl,
            change.lower,
            change.flipped_lower,
        );
        assert(tick_in(ticks1, tu) == before_upper);
        crate::model::lemma_tick_step(
            ticks1,
            bitmap1,
            config,
            tu,
            change.upper,
            change.flipped_upper,
        );
        crate::model::lemma_net_sum_change(view.ticks, ticks1, tl, min, max);
        crate::model::lemma_net_sum_change(ticks1, after.ticks, tu, min, max);
        assert(tick_in(ticks1, tl).liquidity_net == before_lower.liquidity_net + liquidity_delta);
        assert(tick_in(after.ticks, tu).liquidity_net == before_upper.liquidity_net
            - liquidity_delta);
    }
    assert forall|tick: i32|
        {
            &&& (#[trigger] tick_in(after.ticks, tick)).liquidity_gross as int
                == crate::model::end_sum(after.positions, tick, false) + crate::model::end_sum(
                after.positions,
                tick,
                true,
            )
            &&& tick_in(after.ticks, tick).liquidity_net as int == crate::model::end_sum(
                after.positions,
                tick,
                false,
            ) - crate::model::end_sum(after.positions, tick, true)
        } by {
        assert(tick_in(view.ticks, tick).liquidity_gross as int == crate::model::end_sum(
            view.positions,
            tick,
            false,
        ) + crate::model::end_sum(view.positions, tick, true));
        if tick != tl && tick != tu {
            assert(tick_in(after.ticks, tick) == tick_in(view.ticks, tick));
        }
    }
}

/// What `mint` does to a pool, and the token amounts that it asks of
/// the recipient.
pub open spec fn mint_spec(
    view: PoolView,
    recipient: Address,
    tick_lower: i32,
    tick_upper: i32,
    amount: u128,
) -> Result<(PoolView, (u128, u128)), PoolError> {
    let key = PositionKey { owner: recipient, tick_lower, tick_upper };
    if amount == 0 {
        Err(PoolError::ZeroAmount)
    } else if view.config is None || view.state is None {
        Err(PoolError::NotInitialized)
    } else if !ticks_valid(tick_lower, tick_upper, view.config->Some_0.tick_spacing) {
        Err(PoolError::BadTickRange)
    } else if amount > i128::MAX {
        Err(PoolError::LiquidityOverflow)
    } else {
        let config = view.config->Some_0;
        let state = view.state->Some_0;
        match liquidity_change_spec(view, config, state, key, amount as i128, true) {
            Err(e) => Err(e),
            Ok(change) => Ok(
                (
                    applied_change(view, config, state, key, change, change.position, true),
                    (change.amount0, change.amount1),
                ),
            ),
        }
    }
}

/// The record of a position after a burn: the record that the change
/// left in the store, with the burnt amounts added to the owed tokens.
pub open spec fn position_after_burn(change: LiquidityChange) -> Result<PositionInfo, PoolError> {
    let base = if change.position.is_vacant() {
        PositionInfo::empty()
    } else {
        change.position
    };
    if base.tokens_owed_0 + change.amount0 > u128::MAX || base.tokens_owed_1 + change.amount1
        > u128::MAX {
        Err(PoolError::NumericOverflow)
    } else {
        Ok(
            PositionInfo {
                tokens_owed_0: (base.tokens_owed_0 + change.amount0) as u128,
                tokens_owed_1: (base.tokens_owed_1 + change.amount1) as u128,
                ..base
            },
        )
    }
}

/// What `burn` does to a pool, and the token amounts that it credits to
/// the owner.
pub open spec fn burn_spec(
    view: PoolView,
    owner: Address,
    tick_lower: i32,
    tick_upper: i32,
    amount: u128,
) -> Result<(PoolView, (u128, u128)), PoolError> {
    let key = PositionKey { owner, tick_lower, tick_upper };
    if view.config is None || view.state is None {
        Err(PoolError::NotInitialized)
    } else if !ticks_valid(tick_lower, tick_upper, view.config->Some_0.tick_spacing) {
        Err(PoolError::BadTickRange)
    } else if amount > i128::MAX {
        Err(PoolError::BurnExceedsLiquidity)
    } else {
        let config = view.config->Some_0;
        let state = view.state->Some_0;
        match liquidity_change_spec(view, config, state, key, (-(amount as int)) as i128, false) {
            Err(e) => Err(e),
            Ok(change) => match position_after_burn(change) {
                Err(e) => Err(e),
                Ok(position) => Ok(
                    (
                        applied_change(view, config, state, key, change, position, amount != 0),
                        (change.amount0, change.amount1),
                    ),
                ),
            },
        }
    }
}

/// The smaller of two amounts.
pub open spec fn min_amount(a: u128, b: u128) -> u128 {
    if a <= b {
        a
    } else {
        b
    }
}

/// What `collect` does to a pool, and the token amounts that it hands
/// out: what is asked for, as far as the position is owed it.
pub open spec fn collect_spec(
    view: PoolView,
    owner: Address,
    tick_lower: i32,
    tick_upper: i32,
    amount0_requested: u128,
    amount1_requested: u128,
) -> Result<(PoolView, (u128, u128)), PoolError> {
    let key = PositionKey { owner, tick_lower, tick_upper };
    let position = position_in(view.positions, key);
    let amount0 = min_amount(amount0_requested, position.tokens_owed_0);
    let amount1 = min_amount(amount1_requested, position.tokens_owed_1);
    if view.config is None || view.state is None {
        Err(PoolError::NotInitialized)
    } else {
        Ok(
            (
                PoolView {
                    positions: stored_positions(
                        view.positions,
                        key,
                        PositionInfo {
                            tokens_owed_0: (position.tokens_owed_0 - amount0) as u128,
                            tokens_owed_1: (position.tokens_owed_1 - amount1) as u128,
                            ..position
                        },
                    ),
                    ..view
                },
                (amount0, amount1),
            ),
        )
    }
}

/// Adds `amount` of liquidity to the position of `recipient` over the
/// range between two ticks, and returns the amounts of token0 and
/// token1 that the recipient owes the pool for it, rounded up. While
/// the current tick is inside the range the active liquidity grows by
/// `amount`. Where the mint fails the store stays as it was.
pub fn mint(
    store: &mut PoolStorage,
    recipient: &Address,
    tick_lower: i32,
    tick_upper: i32,
    amount: u128,
) -> (r: Result<(u128, u128), PoolError>)
    requires
        old(store)@.wf(),
    ensures
        final(store)@.wf(),
        match mint_spec(old(store)@, *recipient, tick_lower, tick_upper, amount) {
            Err(e) => r == Err::<(u128, u128), PoolError>(e) && *final(store) == *old(store),
            Ok((view, amounts)) => r == Ok::<(u128, u128), PoolError>(amounts) && final(store)@
                == view,
        },
        r is Ok ==> final(store).state->Some_0.liquidity == (if tick_lower <= old(
            store,
        ).state->Some_0.tick < tick_upper {
            old(store).state->Some_0.liquidity + amount
        } else {
            old(store).state->Some_0.liquidity as int
        }),
{
    if amount == 0 {
        return Err(PoolError::ZeroAmount);
    }
    let config = get_config(store)?;
    let state = get_state(store)?;
    validate_ticks(tick_lower, tick_upper, config.tick_spacing)?;
    if amount > i128::MAX as u128 {
        return Err(PoolError::LiquidityOverflow);
    }
    let key = PositionKey { owner: *recipient, tick_lower, tick_upper };
    let change = plan_liquidity_change(store, &config, &state, &key, amount as i128, true)?;
    proof {
        lemma_liquidity_change_keeps_wf(
            store@,
            config,
            state,
            key,
            amount as i128,
            true,
            change,
            change.position,
        );
    }
    apply_liquidity_change(store, &config, &state, &key, &change, &change.position, true);
    Ok((change.amount0, change.amount1))
}

/// Takes `amount` of liquidity out of the position of `owner` over the
/// range between two ticks, and returns the amounts of token0 and
/// token1 that this frees, rounded down. The amounts are added to the
/// tokens owed to the position; `collect` hands them out. An amount of
/// zero only settles the fees of the position. Where the burn fails the
/// store stays as it was.
pub fn burn(
    store: &mut PoolStorage,
    owner: &Address,
    tick_lower: i32,
    tick_upper: i32,
    amount: u128,
) -> (r: Result<(u128, u128), PoolError>)
    requires
        old(store)@.wf(),
    ensures
        final(store)@.wf(),
        match burn_spec(old(store)@, *owner, tick_lower, tick_upper, amount) {
            Err(e) => r == Err::<(u128, u128), PoolError>(e) && *final(store) == *old(store),
            Ok((view, amounts)) => r == Ok::<(u128, u128), PoolError>(amounts) && final(store)@
                == view,
        },
{
    let config = get_config(store)?;
    let state = get_state(store)?;
    validate_ticks(tick_lower, tick_upper, config.tick_spacing)?;
    if amount > i128::MAX as u128 {
        return Err(PoolError::BurnExceedsLiquidity);
    }
    let key = PositionKey { owner: *owner, tick_lower, tick_upper };
    let liquidity_delta: i128 = -(amount as i128);
    let change = plan_liquidity_change(store, &config, &state, &key, liquidity_delta, false)?;
    let vacant = change.position.liquidity == 0 && change.position.tokens_owed_0 == 0
        && change.position.tokens_owed_1 == 0;
    let mut position = if vacant {
        PositionInfo::new()
    } else {
        change.position
    };
    let owed_0 = position.tokens_owed_0.checked_add(change.amount0);
    let owed_1 = position.tokens_owed_1.checked_add(change.amount1);
    match (owed_0, owed_1) {
        (Some(tokens_owed_0), Some(tokens_owed_1)) => {
            position.tokens_owed_0 = tokens_owed_0;
            position.tokens_owed_1 = tokens_owed_1;
        },
        _ => {
            return Err(PoolError::NumericOverflow);
        },
    }
    proof {
        lemma_liquidity_change_keeps_wf(
            store@,
            config,
            state,
            key,
            liquidity_delta,
            false,
            change,
            position,
        );
    }
    apply_liquidity_change(store, &config, &state, &key, &change, &position, amount != 0);
    Ok((change.amount0, change.amount1))
}

/// Hands out tokens owed to the position of `owner` over the range
/// between two ticks: of each token what is asked for, as far as the
/// position is owed it. Returns the two amounts.
pub fn collect(
    store: &mut PoolStorage,
    owner: &Address,
    tick_lower: i32,
    tick_upper: i32,
    amount0_requested: u128,
    amount1_requested: u128,
) -> (r: Result<(u128, u128), PoolError>)
    requires
        old(store)@.wf(),
    ensures
        final(store)@.wf(),
        match collect_spec(
            old(store)@,
            *owner,
            tick_lower,
            tick_upper,
            amount0_requested,
            amount1_requested,
        ) {
            Err(e) => r == Err::<(u128, u128), PoolError>(e) && *final(store) == *old(store),
            Ok((view, amounts)) => r == Ok::<(u128, u128), PoolError>(amounts) && final(store)@
                == view,
        },
{
    let _config = get_config(store)?;
    let _state = get_state(store)?;
    let key = PositionKey { owner: *owner, tick_lower, tick_upper };
    let mut position = get_position(store, &key);
    let amount0 = if amount0_requested <= position.tokens_owed_0 {
        amount0_requested
    } else {
        position.tokens_owed_0
    };
    let amount1 = if amount1_requested <= position.tokens_owed_1 {
        amount1_requested
    } else {
        position.tokens_owed_1
    };
    position.tokens_owed_0 = position.tokens_owed_0 - amount0;
    position.tokens_owed_1 = position.tokens_owed_1 - amount1;
    proof {
        lemma_collect_keeps_wf(store@, key, position);
    }
    set_position(store, &key, &position);
    Ok((amount0, amount1))
}

/// Storing a position with the liquidity it had, whatever its owed
/// tokens, keeps everything that holds of the pool.
pub proof fn lemma_collect_keeps_wf(view: PoolView, key: PositionKey, position: PositionInfo)
    requires
        view.wf(),
        view.config is Some,
        position.liquidity == position_in(view.positions, key).liquidity,
        position_in(view.positions, key).is_vacant() ==> position.is_vacant(),
    ensures
        (PoolView { positions: stored_positions(view.positions, key, position), ..view }).wf(),
{
    let after = PoolView { positions: stored_positions(view.positions, key, position), ..view };
    crate::storage::lemma_stored_positions(view.positions, key, position);
    crate::model::lemma_stored_entries(view.positions, key, position);
    crate::model::lemma_in_range_sum_stored(
        view.positions,
        key,
        position,
        view.state->Some_0.tick as int,
    );
    let n = view.positions.len() as int;
    crate::storage::lemma_position_index(view.positions, key, n);
    assert(crate::model::positions_wf(after.positions));
    assert forall|tick: i32|
        {
            &&& (#[trigger] tick_in(after.ticks, tick)).liquidity_gross as int
                == crate::model::end_sum(after.positions, tick, false) + crate::model::end_sum(
                after.positions,
                tick,
                true,
            )
            &&& tick_in(after.ticks, tick).liquidity_net as int == crate::model::end_sum(
                after.positions,
                tick,
                false,
            ) - crate::model::end_sum(after.positions, tick, true)
        } by {
        crate::model::lemma_end_sum_stored(view.positions, key, position, tick, false);
        crate::model::lemma_end_sum_stored(view.positions, key, position, tick, true);
        assert(tick_in(view.ticks, tick).liquidity_gross as int == crate::model::end_sum(
            view.positions,
            tick,
            false,
        ) + crate::model::end_sum(view.positions, tick, true));
    }
}

/// A mint and a burn of the same liquidity over the same range, one
/// after the other, leave the gross and the net liquidity of the two
/// ticks of the range as they were before the mint.
pub proof fn lemma_mint_then_burn_restores_ticks(
    view: PoolView,
    owner: Address,
    tick_lower: i32,
    tick_upper: i32,
    amount: u128,
)
    requires
        view.wf(),
        mint_spec(view, owner, tick_lower, tick_upper, amount) is Ok,
        burn_spec(
            mint_spec(view, owner, tick_lower, tick_upper, amount)->Ok_0.0,
            owner,
            tick_lower,
            tick_upper,
            amount,
        ) is Ok,
    ensures
        ({
            let minted = mint_spec(view, owner, tick_lower, tick_upper, amount)->Ok_0.0;
            let burnt = burn_spec(minted, owner, tick_lower, tick_upper, amount)->Ok_0.0;
            &&& tick_in(burnt.ticks, tick_lower).liquidity_gross == tick_in(
                view.ticks,
                tick_lower,
            ).liquidity_gross
            &&& tick_in(burnt.ticks, tick_lower).liquidity_net == tick_in(
                view.ticks,
                tick_lower,
            ).liquidity_net
            &&& tick_in(burnt.ticks, tick_upper).liquidity_gross == tick_in(
                view.ticks,
                tick_upper,
            ).liquidity_gross
            &&& tick_in(burnt.ticks, tick_upper).liquidity_net == tick_in(
                view.ticks,
                tick_upper,
            ).liquidity_net
        }),
{
    crate::model::liquidity_net_bounded_by_gross(view, tick_lower);
    crate::model::liquidity_net_bounded_by_gross(view, tick_upper);
}

/// A mint into a range that holds the current tick raises the active
/// liquidity by the minted amount; a mint into any other range leaves
/// it as it was.
pub proof fn pool_liquidity_updates_for_active_position(
    view: PoolView,
    owner: Address,
    tick_lower: i32,
    tick_upper: i32,
    amount: u128,
)
    requires
        mint_spec(view, owner, tick_lower, tick_upper, amount) is Ok,
    ensures
        ({
            let before = view.state->Some_0;
            let after = mint_spec(view, owner, tick_lower, tick_upper, amount)->Ok_0.0.state->Some_0;
            after.liquidity == (if tick_lower <= before.tick < tick_upper {
                before.liquidity + amount
            } else {
                before.liquidity as int
            })
        }),
{
}

/// On a pool that was just initialized, a mint, a burn of the same
/// liquidity over the same range, and a collect of all that is owed
/// hand back, of each token, what the mint asked for or one unit less.
pub proof fn lemma_mint_burn_collect_round_trip(
    view: PoolView,
    owner: Address,
    tick_lower: i32,
    tick_upper: i32,
    amount: u128,
)
    requires
        view.wf(),
        view.state is Some,
        view.ticks == Map::<i32, TickInfo>::empty(),
        view.positions == Seq::<crate::storage::PositionEntry>::empty(),
        view.state->Some_0.fee_growth_global_0_x128 == 0,
        view.state->Some_0.fee_growth_global_1_x128 == 0,
        mint_spec(view, owner, tick_lower, tick_upper, amount) is Ok,
    ensures
        ({
            let minted = mint_spec(view, owner, tick_lower, tick_upper, amount)->Ok_0;
            let burnt = burn_spec(minted.0, owner, tick_lower, tick_upper, amount);
            &&& burnt is Ok
            &&& ({
                let collected = collect_spec(
                    burnt->Ok_0.0,
                    owner,
                    tick_lower,
                    tick_upper,
                    u128::MAX,
                    u128::MAX,
                );
                &&& collected is Ok
                &&& collected->Ok_0.1 == burnt->Ok_0.1
                &&& collected->Ok_0.1.0 <= (minted.1).0 <= collected->Ok_0.1.0 + 1
                &&& collected->Ok_0.1.1 <= (minted.1).1 <= collected->Ok_0.1.1 + 1
                &&& collected->Ok_0.0.ticks == view.ticks
                &&& collected->Ok_0.0.positions == view.positions
                &&& collected->Ok_0.0.state == view.state
            })
        }),
{
    let config = view.config->Some_0;
    let state = view.state->Some_0;
    let key = PositionKey { owner, tick_lower, tick_upper };
    let minted = mint_spec(view, owner, tick_lower, tick_upper, amount)->Ok_0;
    let change = liquidity_change_spec(view, config, state, key, amount as i128, true)->Ok_0;
    crate::liquidity_math::lemma_amounts_rounding_gap(
        state.sqrt_price_x96,
        sqrt_ratio_at_tick_spec(tick_lower as int) as u128,
        sqrt_ratio_at_tick_spec(tick_upper as int) as u128,
        amount,
    );
    lemma_liquidity_change_keeps_wf(
        view,
        config,
        state,
        key,
        amount as i128,
        true,
        change,
        change.position,
    );
    // the pool after the mint
    let v1 = minted.0;
    let s1 = v1.state->Some_0;
    assert(change.position == PositionInfo { liquidity: amount, ..PositionInfo::empty() });
    crate::storage::lemma_position_index_is(v1.positions, key, 1, 0);
    assert(position_in(v1.positions, key) == change.position);
    assert(tick_in(v1.ticks, tick_lower) == change.lower);
    assert(tick_in(v1.ticks, tick_upper) == change.upper);
    assert(crate::position::fees_earned(0, 0, amount) == 0) by {
        assert(0 * (amount as int) == 0);
    }
    let back = liquidity_change_spec(v1, config, s1, key, (-(amount as int)) as i128, false);
    assert(back is Ok);
    let undone = back->Ok_0;
    assert(undone.position.is_vacant());
    let owed = position_after_burn(undone)->Ok_0;
    let burnt = burn_spec(v1, owner, tick_lower, tick_upper, amount)->Ok_0;
    let v2 = burnt.0;
    assert(v2.ticks =~= view.ticks);
    // the pool after the collect
    let n = v2.positions.len() as int;
    if !owed.is_vacant() {
        crate::storage::lemma_position_index_is(v1.positions, key, 1, 0);
        assert(v2.positions =~= seq![crate::storage::PositionEntry { key, info: owed }]);
        crate::storage::lemma_position_index_is(v2.positions, key, 1, 0);
    } else {
        assert(v2.positions =~= Seq::<crate::storage::PositionEntry>::empty());
    }
    let collected = collect_spec(v2, owner, tick_lower, tick_upper, u128::MAX, u128::MAX)->Ok_0;
    assert(collected.0.positions =~= view.positions);
}

} // verus!
