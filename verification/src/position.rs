//! The records of positions: liquidity, fees earned since the position
//! was last touched, and tokens owed to the owner.

use vstd::prelude::*;
use crate::error::PoolError;
use crate::liquidity_math::{add_delta, add_delta_spec};
use crate::storage::{get_position, keys_unique, set_position, stored_positions, PoolStorage};
use crate::tick::wrapping_diff;
use crate::types::{PositionInfo, PositionKey};
use crate::wide::{lemma_div_rem_unique, limb, Wide};

verus! {

/// Fees that a position of the given liquidity earned while the fee
/// growth inside its range went from `growth_last` to `growth_now`:
/// the growth, modulo 2^128, times the liquidity, over 2^128.
pub open spec fn fees_earned(growth_now: u128, growth_last: u128, liquidity: u128) -> int {
    (wrapping_diff(growth_now, growth_last) as int * liquidity as int) / limb()
}

/// The record of a position after its liquidity changes by
/// `liquidity_delta` at the given fee growth inside its range. Fees
/// earned so far are added to the owed tokens first.
pub open spec fn updated_position(
    info: PositionInfo,
    liquidity_delta: i128,
    fee_growth_inside_0_x128: u128,
    fee_growth_inside_1_x128: u128,
) -> Result<PositionInfo, PoolError> {
    let owed_0 = if info.liquidity > 0 {
        info.tokens_owed_0 + fees_earned(
            fee_growth_inside_0_x128,
            info.fee_growth_inside_0_last_x128,
            info.liquidity,
        )
    } else {
        info.tokens_owed_0 as int
    };
    let owed_1 = if info.liquidity > 0 {
        info.tokens_owed_1 + fees_earned(
            fee_growth_inside_1_x128,
            info.fee_growth_inside_1_last_x128,
            info.liquidity,
        )
    } else {
        info.tokens_owed_1 as int
    };
    if owed_0 > u128::MAX || owed_1 > u128::MAX {
        Err(PoolError::NumericOverflow)
    } else {
        match add_delta_spec(info.liquidity, liquidity_delta) {
            Err(PoolError::LiquidityUnderflow) => Err(PoolError::BurnExceedsLiquidity),
            Err(e) => Err(e),
            Ok(liquidity) => Ok(
                PositionInfo {
                    liquidity,
                    fee_growth_inside_0_last_x128: fee_growth_inside_0_x128,
                    fee_growth_inside_1_last_x128: fee_growth_inside_1_x128,
                    tokens_owed_0: owed_0 as u128,
                    tokens_owed_1: owed_1 as u128,
                },
            ),
        }
    }
}

/// Fees earned by a position since it was last touched.
fn compute_fees_earned(growth_now: u128, growth_last: u128, liquidity: u128) -> (r: u128)
    ensures
        r as int == fees_earned(growth_now, growth_last, liquidity),
{
    let growth = growth_now.wrapping_sub(growth_last);
    let product = Wide::full_mul(growth, liquidity);
    proof {
        lemma_div_rem_unique(
            growth as int * liquidity as int,
            limb(),
            product.hi as int,
            product.lo as int,
        );
    }
    product.hi
}

/// The record of a position after a change of its liquidity. Fails with
/// `BurnExceedsLiquidity` where more liquidity is taken than the
/// position holds.
pub fn compute_position_update(
    info: &PositionInfo,
    liquidity_delta: i128,
    fee_growth_inside_0_x128: u128,
    fee_growth_inside_1_x128: u128,
) -> (r: Result<PositionInfo, PoolError>)
    ensures
        r == updated_position(
            *info,
            liquidity_delta,
            fee_growth_inside_0_x128,
            fee_growth_inside_1_x128,
        ),
{
    let mut tokens_owed_0 = info.tokens_owed_0;
    let mut tokens_owed_1 = info.tokens_owed_1;
    if info.liquidity > 0 {
        let earned_0 = compute_fees_earned(
            fee_growth_inside_0_x128,
            info.fee_growth_inside_0_last_x128,
            info.liquidity,
        );
        let earned_1 = compute_fees_earned(
            fee_growth_inside_1_x128,
            info.fee_growth_inside_1_last_x128,
            info.liquidity,
        );
        let sum_0 = tokens_owed_0.checked_add(earned_0);
        let sum_1 = tokens_owed_1.checked_add(earned_1);
        match (sum_0, sum_1) {
            (Some(owed_0), Some(owed_1)) => {
                tokens_owed_0 = owed_0;
                tokens_owed_1 = owed_1;
            },
            _ => {
                return Err(PoolError::NumericOverflow);
            },
        }
    }
    let liquidity = match add_delta(info.liquidity, liquidity_delta) {
        Ok(liquidity) => liquidity,
        Err(PoolError::LiquidityUnderflow) => {
            return Err(PoolError::BurnExceedsLiquidity);
        },
        Err(e) => {
            return Err(e);
        },
    };
    Ok(
        PositionInfo {
            liquidity,
            fee_growth_inside_0_last_x128: fee_growth_inside_0_x128,
            fee_growth_inside_1_last_x128: fee_growth_inside_1_x128,
            tokens_owed_0,
            tokens_owed_1,
        },
    )
}

/// Changes the liquidity of a position in the store, adding the fees it
/// earned so far to its owed tokens. Where the change fails the store
/// stays as it was.
pub fn update_position(
    store: &mut PoolStorage,
    key: &PositionKey,
    liquidity_delta: i128,
    fee_growth_inside_0_x128: u128,
    fee_growth_inside_1_x128: u128,
) -> (r: Result<(), PoolError>)
    requires
        keys_unique(old(store).positions@),
    ensures
        match updated_position(
            old(store).position_at(*key),
            liquidity_delta,
            fee_growth_inside_0_x128,
            fee_growth_inside_1_x128,
        ) {
            Err(e) => r == Err::<(), PoolError>(e) && *final(store) == *old(store),
            Ok(info) => {
                &&& r == Ok::<(), PoolError>(())
                &&& final(store).positions@ == stored_positions(old(store).positions@, *key, info)
                &&& keys_unique(final(store).positions@)
                &&& final(store).config == old(store).config
                &&& final(store).state == old(store).state
                &&& final(store).ticks == old(store).ticks
                &&& final(store).bitmap == old(store).bitmap
            },
        },
{
    let position = get_position(store, key);
    let updated = compute_position_update(
        &position,
        liquidity_delta,
        fee_growth_inside_0_x128,
        fee_growth_inside_1_x128,
    )?;
    set_position(store, key, &updated);
    Ok(())
}

} // verus!
