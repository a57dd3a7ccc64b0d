//! The records of ticks: liquidity that begins and ends at a tick, fee
//! growth on the far side of a tick, and the bitmap that finds the next
//! initialized tick.

use vstd::prelude::*;
use crate::constants::{MAX_TICK, MAX_TICK_SPACING, MIN_TICK};
use crate::error::PoolError;
use crate::liquidity_math::unsigned_abs;
use crate::storage::{
    get_tick, get_tick_bitmap_word, set_tick, set_tick_bitmap_word, word_in, PoolStorage,
};
use crate::tick_bitmap::{
    bit_position, bit_set, compressed_tick, compute_next_tick_gt, compute_next_tick_lte,
    floor_div, highest_set_bit_at_or_below, lemma_bit_operations, lemma_highest_set_bit,
    lemma_lowest_set_bit, lemma_mask_bits, lowest_set_bit_at_or_above, next_tick_gt_spec,
    next_tick_lte_spec, position_tick, tick_to_bitmap_position, word_position,
};
use crate::types::TickInfo;

verus! {

/// Difference of two fee growth accumulators, modulo 2^128.
pub open spec fn wrapping_diff(a: u128, b: u128) -> u128 {
    if a >= b {
        (a - b) as u128
    } else {
        (a - b + 0x1_0000_0000_0000_0000_0000_0000_0000_0000) as u128
    }
}

/// What `compute_liquidity_after_update` returns: the gross and the net
/// liquidity of the tick after the change, whether the tick went from
/// unused to used or back, and whether its fee growth is to be seeded.
pub open spec fn liquidity_after_update_spec(
    liquidity_gross_before: u128,
    liquidity_net_before: i128,
    liquidity_delta: i128,
    upper: bool,
    max_liquidity: u128,
    tick: i32,
    tick_current: i32,
) -> Result<(u128, i128, bool, bool), PoolError> {
    let gross_after = liquidity_gross_before as int + liquidity_delta as int;
    let net_after = if upper {
        liquidity_net_before as int - liquidity_delta as int
    } else {
        liquidity_net_before as int + liquidity_delta as int
    };
    if gross_after < 0 {
        Err(PoolError::LiquidityUnderflow)
    } else if gross_after > max_liquidity as int {
        Err(PoolError::LiquidityOverflow)
    } else if net_after < i128::MIN as int || net_after > i128::MAX as int {
        Err(PoolError::LiquidityOverflow)
    } else {
        Ok(
            (
                gross_after as u128,
                net_after as i128,
                (gross_after == 0) != (liquidity_gross_before == 0),
                liquidity_gross_before == 0 && tick <= tick_current,
            ),
        )
    }
}

/// The record of a tick after a change of liquidity, and whether the
/// tick went from unused to used or back.
pub open spec fn updated_tick(
    info: TickInfo,
    tick: i32,
    tick_current: i32,
    liquidity_delta: i128,
    fee_growth_global_0_x128: u128,
    fee_growth_global_1_x128: u128,
    upper: bool,
    max_liquidity: u128,
) -> Result<(TickInfo, bool), PoolError> {
    match liquidity_after_update_spec(
        info.liquidity_gross,
        info.liquidity_net,
        liquidity_delta,
        upper,
        max_liquidity,
        tick,
        tick_current,
    ) {
        Err(e) => Err(e),
        Ok((gross, net, flipped, seed)) => Ok(
            (
                TickInfo {
                    liquidity_gross: gross,
                    liquidity_net: net,
                    fee_growth_outside_0_x128: if seed {
                        fee_growth_global_0_x128
                    } else {
                        info.fee_growth_outside_0_x128
                    },
                    fee_growth_outside_1_x128: if seed {
                        fee_growth_global_1_x128
                    } else {
                        info.fee_growth_outside_1_x128
                    },
                    initialized: info.initialized || (info.liquidity_gross == 0 && gross > 0),
                },
                flipped,
            ),
        ),
    }
}

/// A map of ticks after a record is stored in it: a record without
/// liquidity takes its tick out of the map.
pub open spec fn ticks_with(ticks: Map<i32, TickInfo>, tick: i32, info: TickInfo) -> Map<
    i32,
    TickInfo,
> {
    if info.liquidity_gross == 0 {
        ticks.remove(tick)
    } else {
        ticks.insert(tick, info)
    }
}

/// The record of a tick after the price crossed it: its fee growth now
/// counts the other side.
pub open spec fn crossed_tick(
    info: TickInfo,
    fee_growth_global_0_x128: u128,
    fee_growth_global_1_x128: u128,
) -> TickInfo {
    TickInfo {
        fee_growth_outside_0_x128: wrapping_diff(
            fee_growth_global_0_x128,
            info.fee_growth_outside_0_x128,
        ),
        fee_growth_outside_1_x128: wrapping_diff(
            fee_growth_global_1_x128,
            info.fee_growth_outside_1_x128,
        ),
        ..info
    }
}

/// Fee growth on the side of a tick below it.
pub open spec fn fee_growth_below_spec(
    tick: i32,
    tick_current: i32,
    outside: u128,
    global: u128,
) -> u128 {
    if tick_current >= tick {
        outside
    } else {
        wrapping_diff(global, outside)
    }
}

/// Fee growth on the side of a tick above it.
pub open spec fn fee_growth_above_spec(
    tick: i32,
    tick_current: i32,
    outside: u128,
    global: u128,
) -> u128 {
    if tick_current < tick {
        outside
    } else {
        wrapping_diff(global, outside)
    }
}

/// Fee growth between two ticks: the global growth less the growth
/// below the lower tick and above the upper one, modulo 2^128.
pub open spec fn fee_growth_inside_spec(
    lower: TickInfo,
    upper: TickInfo,
    tick_lower: i32,
    tick_upper: i32,
    tick_current: i32,
    fee_growth_global_0_x128: u128,
    fee_growth_global_1_x128: u128,
) -> (u128, u128) {
    (
        wrapping_diff(
            wrapping_diff(
                fee_growth_global_0_x128,
                fee_growth_below_spec(
                    tick_lower,
                    tick_current,
                    lower.fee_growth_outside_0_x128,
                    fee_growth_global_0_x128,
                ),
            ),
            fee_growth_above_spec(
                tick_upper,
                tick_current,
                upper.fee_growth_outside_0_x128,
                fee_growth_global_0_x128,
            ),
        ),
        wrapping_diff(
            wrapping_diff(
                fee_growth_global_1_x128,
                fee_growth_below_spec(
                    tick_lower,
                    tick_current,
                    lower.fee_growth_outside_1_x128,
                    fee_growth_global_1_x128,
                ),
            ),
            fee_growth_above_spec(
                tick_upper,
                tick_current,
                upper.fee_growth_outside_1_x128,
                fee_growth_global_1_x128,
            ),
        ),
    )
}

/// A word of the bitmap with one bit toggled.
pub open spec fn flip_bit(word: u128, bit: u8) -> u128 {
    word ^ (1u128 << (bit as u128))
}

/// The bitmap after the bit of a tick is toggled. A word that becomes
/// zero leaves the bitmap.
pub open spec fn bitmap_flipped(bitmap: Map<i32, u128>, tick: i32, tick_spacing: i32) -> Map<
    i32,
    u128,
> {
    let compressed = compressed_tick(tick as int, tick_spacing as int);
    let word_pos = word_position(compressed) as i32;
    let word = flip_bit(word_in(bitmap, word_pos), bit_position(compressed) as u8);
    if word == 0 {
        bitmap.remove(word_pos)
    } else {
        bitmap.insert(word_pos, word)
    }
}

/// The next initialized tick that the bitmap shows from `tick`, within
/// one word: at or below `tick` for `lte`, else above it.
pub open spec fn next_initialized_tick_spec(
    bitmap: Map<i32, u128>,
    tick: i32,
    tick_spacing: i32,
    lte: bool,
) -> (int, bool) {
    let compressed = compressed_tick(tick as int, tick_spacing as int) + if lte {
        0int
    } else {
        1int
    };
    let word_pos = word_position(compressed) as i32;
    let bit_pos = bit_position(compressed) as u8;
    if lte {
        next_tick_lte_spec(word_in(bitmap, word_pos), word_pos, bit_pos, tick_spacing)
    } else {
        next_tick_gt_spec(word_in(bitmap, word_pos), word_pos, bit_pos, tick_spacing)
    }
}

/// The gross and net liquidity of a tick after `liquidity_delta` is
/// added at it as a lower or an upper end of a range. Fails where the
/// gross liquidity would fall under zero or rise over `max_liquidity`.
pub fn compute_liquidity_after_update(
    liquidity_gross_before: u128,
    liquidity_net_before: i128,
    liquidity_delta: i128,
    upper: bool,
    max_liquidity: u128,
    tick: i32,
    tick_current: i32,
) -> (r: Result<(u128, i128, bool, bool), PoolError>)
    ensures
        r == liquidity_after_update_spec(
            liquidity_gross_before,
            liquidity_net_before,
            liquidity_delta,
            upper,
            max_liquidity,
            tick,
            tick_current,
        ),
{
    let size = unsigned_abs(liquidity_delta);
    let liquidity_gross_after: u128 = if liquidity_delta < 0 {
        if liquidity_gross_before < size {
            return Err(PoolError::LiquidityUnderflow);
        }
        liquidity_gross_before - size
    } else {
        match liquidity_gross_before.checked_add(size) {
            Some(sum) => sum,
            None => {
                return Err(PoolError::LiquidityOverflow);
            },
        }
    };
    if liquidity_gross_after > max_liquidity {
        return Err(PoolError::LiquidityOverflow);
    }
    let flipped = (liquidity_gross_after == 0) != (liquidity_gross_before == 0);
    let should_init_fee_growth = liquidity_gross_before == 0 && tick <= tick_current;
    let net = if upper {
        liquidity_net_before.checked_sub(liquidity_delta)
    } else {
        liquidity_net_before.checked_add(liquidity_delta)
    };
    match net {
        Some(liquidity_net_after) => Ok(
            (liquidity_gross_after, liquidity_net_after, flipped, should_init_fee_growth),
        ),
        None => Err(PoolError::LiquidityOverflow),
    }
}

/// The fee growth on the far side of a tick after the price crossed
/// it: the global growth less what was on the far side before, modulo
/// 2^128.
pub fn compute_fee_growth_after_cross(
    fee_growth_outside_0: u128,
    fee_growth_outside_1: u128,
    fee_growth_global_0: u128,
    fee_growth_global_1: u128,
) -> (r: (u128, u128))
    ensures
        r.0 == wrapping_diff(fee_growth_global_0, fee_growth_outside_0),
        r.1 == wrapping_diff(fee_growth_global_1, fee_growth_outside_1),
{
    (
        fee_growth_global_0.wrapping_sub(fee_growth_outside_0),
        fee_growth_global_1.wrapping_sub(fee_growth_outside_1),
    )
}

/// Fee growth of both tokens on the side of a tick below it.
pub fn compute_fee_growth_below(
    tick: i32,
    tick_current: i32,
    fee_growth_outside_0: u128,
    fee_growth_outside_1: u128,
    fee_growth_global_0: u128,
    fee_growth_global_1: u128,
) -> (r: (u128, u128))
    ensures
        r.0 == fee_growth_below_spec(tick, tick_current, fee_growth_outside_0, fee_growth_global_0),
        r.1 == fee_growth_below_spec(tick, tick_current, fee_growth_outside_1, fee_growth_global_1),
{
    if tick_current >= tick {
        (fee_growth_outside_0, fee_growth_outside_1)
    } else {
        (
            fee_growth_global_0.wrapping_sub(fee_growth_outside_0),
            fee_growth_global_1.wrapping_sub(fee_growth_outside_1),
        )
    }
}

/// Fee growth of both tokens on the side of a tick above it.
pub fn compute_fee_growth_above(
    tick: i32,
    tick_current: i32,
    fee_growth_outside_0: u128,
    fee_growth_outside_1: u128,
    fee_growth_global_0: u128,
    fee_growth_global_1: u128,
) -> (r: (u128, u128))
    ensures
        r.0 == fee_growth_above_spec(tick, tick_current, fee_growth_outside_0, fee_growth_global_0),
        r.1 == fee_growth_above_spec(tick, tick_current, fee_growth_outside_1, fee_growth_global_1),
{
    if tick_current < tick {
        (fee_growth_outside_0, fee_growth_outside_1)
    } else {
        (
            fee_growth_global_0.wrapping_sub(fee_growth_outside_0),
            fee_growth_global_1.wrapping_sub(fee_growth_outside_1),
        )
    }
}

/// Fee growth of both tokens between two ticks, from the growth below
/// the lower tick and above the upper one: global less below less
/// above, modulo 2^128.
pub fn compute_fee_growth_inside_pure(
    fee_growth_below_0: u128,
    fee_growth_below_1: u128,
    fee_growth_above_0: u128,
    fee_growth_above_1: u128,
    fee_growth_global_0: u128,
    fee_growth_global_1: u128,
) -> (r: (u128, u128))
    ensures
        r.0 == wrapping_diff(
            wrapping_diff(fee_growth_global_0, fee_growth_below_0),
            fee_growth_above_0,
        ),
        r.1 == wrapping_diff(
            wrapping_diff(fee_growth_global_1, fee_growth_below_1),
            fee_growth_above_1,
        ),
{
    (
        fee_growth_global_0.wrapping_sub(fee_growth_below_0).wrapping_sub(fee_growth_above_0),
        fee_growth_global_1.wrapping_sub(fee_growth_below_1).wrapping_sub(fee_growth_above_1),
    )
}

/// Adds `liquidity_delta` to a tick as the lower or the upper end of a
/// range, and says whether the tick went from unused to used or back. A
/// tick that comes into use at or below the current tick starts with
/// the global fee growth on its far side; a tick that goes out of use
/// leaves the store. Where the change fails the store stays as it was.
pub fn update(
    store: &mut PoolStorage,
    tick: i32,
    tick_current: i32,
    liquidity_delta: i128,
    fee_growth_global_0_x128: u128,
    fee_growth_global_1_x128: u128,
    upper: bool,
    max_liquidity: u128,
) -> (r: Result<bool, PoolError>)
    ensures
        match updated_tick(
            old(store).tick_at(tick),
            tick,
            tick_current,
            liquidity_delta,
            fee_growth_global_0_x128,
            fee_growth_global_1_x128,
            upper,
            max_liquidity,
        ) {
            Err(e) => r == Err::<bool, PoolError>(e) && *final(store) == *old(store),
            Ok((info, flipped)) => {
                &&& r == Ok::<bool, PoolError>(flipped)
                &&& final(store).ticks@ == ticks_with(old(store).ticks@, tick, info)
                &&& final(store).config == old(store).config
                &&& final(store).state == old(store).state
                &&& final(store).bitmap == old(store).bitmap
                &&& final(store).positions == old(store).positions
            },
        },
{
    let mut info = get_tick(store, tick);
    let (liquidity_gross_after, liquidity_net_after, flipped, should_init_fee_growth) =
        compute_liquidity_after_update(
        info.liquidity_gross,
        info.liquidity_net,
        liquidity_delta,
        upper,
        max_liquidity,
        tick,
        tick_current,
    )?;
    if should_init_fee_growth {
        info.fee_growth_outside_0_x128 = fee_growth_global_0_x128;
        info.fee_growth_outside_1_x128 = fee_growth_global_1_x128;
    }
    if info.liquidity_gross == 0 && liquidity_gross_after > 0 {
        info.initialized = true;
    }
    info.liquidity_gross = liquidity_gross_after;
    info.liquidity_net = liquidity_net_after;
    set_tick(store, tick, &info);
    Ok(flipped)
}

/// Moves the price across a tick: the fee growth on the far side of the
/// tick now counts the other side. Returns the net liquidity of the
/// tick.
pub fn cross(
    store: &mut PoolStorage,
    tick: i32,
    fee_growth_global_0_x128: u128,
    fee_growth_global_1_x128: u128,
) -> (r: i128)
    ensures
        r == old(store).tick_at(tick).liquidity_net,
        final(store).ticks@ == ticks_with(
            old(store).ticks@,
            tick,
            crossed_tick(
                old(store).tick_at(tick),
                fee_growth_global_0_x128,
                fee_growth_global_1_x128,
            ),
        ),
        final(store).config == old(store).config,
        final(store).state == old(store).state,
        final(store).bitmap == old(store).bitmap,
        final(store).positions == old(store).positions,
{
    let mut info = get_tick(store, tick);
    let (new_fee_0, new_fee_1) = compute_fee_growth_after_cross(
        info.fee_growth_outside_0_x128,
        info.fee_growth_outside_1_x128,
        fee_growth_global_0_x128,
        fee_growth_global_1_x128,
    );
    info.fee_growth_outside_0_x128 = new_fee_0;
    info.fee_growth_outside_1_x128 = new_fee_1;
    set_tick(store, tick, &info);
    info.liquidity_net
}

/// Fee growth of both tokens inside the range between two ticks.
pub fn get_fee_growth_inside(
    store: &PoolStorage,
    tick_lower: i32,
    tick_upper: i32,
    tick_current: i32,
    fee_growth_global_0_x128: u128,
    fee_growth_global_1_x128: u128,
) -> (r: (u128, u128))
    ensures
        r == fee_growth_inside_spec(
            store.tick_at(tick_lower),
            store.tick_at(tick_upper),
            tick_lower,
            tick_upper,
            tick_current,
            fee_growth_global_0_x128,
            fee_growth_global_1_x128,
        ),
{
    let lower = get_tick(store, tick_lower);
    let upper = get_tick(store, tick_upper);
    let (fee_growth_below_0, fee_growth_below_1) = compute_fee_growth_below(
        tick_lower,
        tick_current,
        lower.fee_growth_outside_0_x128,
        lower.fee_growth_outside_1_x128,
        fee_growth_global_0_x128,
        fee_growth_global_1_x128,
    );
    let (fee_growth_above_0, fee_growth_above_1) = compute_fee_growth_above(
        tick_upper,
        tick_current,
        upper.fee_growth_outside_0_x128,
        upper.fee_growth_outside_1_x128,
        fee_growth_global_0_x128,
        fee_growth_global_1_x128,
    );
    compute_fee_growth_inside_pure(
        fee_growth_below_0,
        fee_growth_below_1,
        fee_growth_above_0,
        fee_growth_above_1,
        fee_growth_global_0_x128,
        fee_growth_global_1_x128,
    )
}

/// Toggles the bit of a tick in the bitmap. The tick has to be on the
/// spacing.
pub fn flip_tick(store: &mut PoolStorage, tick: i32, tick_spacing: i32)
    requires
        tick_spacing > 0,
        tick as int % tick_spacing as int == 0,
    ensures
        final(store).bitmap@ == bitmap_flipped(old(store).bitmap@, tick, tick_spacing),
        ({
            let compressed = compressed_tick(tick as int, tick_spacing as int);
            let word_pos = word_position(compressed) as i32;
            let bit = bit_position(compressed) as u8;
            &&& final(store).word_at(word_pos) == flip_bit(old(store).word_at(word_pos), bit)
            &&& forall|other: i32|
                other != word_pos ==> final(store).word_at(other) == old(store).word_at(other)
            &&& bit_set(final(store).word_at(word_pos), bit as int) != bit_set(
                old(store).word_at(word_pos),
                bit as int,
            )
            &&& forall|i: int|
                0 <= i < 128 && i != bit ==> bit_set(final(store).word_at(word_pos), i) == bit_set(
                    old(store).word_at(word_pos),
                    i,
                )
        }),
        final(store).config == old(store).config,
        final(store).state == old(store).state,
        final(store).ticks == old(store).ticks,
        final(store).positions == old(store).positions,
{
    let (word_pos, bit_pos) = tick_to_bitmap_position(tick, tick_spacing);
    let mask = 1u128 << (bit_pos as u128);
    let word = get_tick_bitmap_word(store, word_pos);
    proof {
        lemma_flip_bit(word, bit_pos);
    }
    set_tick_bitmap_word(store, word_pos, word ^ mask);
}

/// Toggling a bit changes that bit and no other.
pub proof fn lemma_flip_bit(word: u128, bit: u8)
    requires
        bit < 128,
    ensures
        bit_set(flip_bit(word, bit), bit as int) != bit_set(word, bit as int),
        forall|i: int|
            0 <= i < 128 && i != bit ==> bit_set(flip_bit(word, bit), i) == bit_set(word, i),
{
    let mask = 1u128 << (bit as u128);
    lemma_bit_operations(word, mask, bit as u128);
    lemma_mask_bits(bit as u128, bit as u128);
    assert forall|i: int| 0 <= i < 128 && i != bit implies bit_set(flip_bit(word, bit), i)
        == bit_set(word, i) by {
        lemma_bit_operations(word, mask, i as u128);
        lemma_mask_bits(bit as u128, i as u128);
    }
}

/// Toggling the same bit twice gives the word back.
pub proof fn lemma_flip_twice(word: u128, bit: u8)
    requires
        bit < 128,
    ensures
        flip_bit(flip_bit(word, bit), bit) == word,
{
    let mask = 1u128 << (bit as u128);
    assert((word ^ mask) ^ mask == word) by (bit_vector);
}

/// The next initialized tick from `tick` within one word of the bitmap:
/// at or below `tick` for `lte`, above it otherwise. Where the word
/// holds none, the result is the tick at the end of the word on that
/// side, with `false`.
pub fn next_initialized_tick_within_one_word(
    store: &PoolStorage,
    tick: i32,
    tick_spacing: i32,
    lte: bool,
) -> (r: (i32, bool))
    requires
        MIN_TICK - 1 <= tick <= MAX_TICK,
        0 < tick_spacing <= MAX_TICK_SPACING,
    ensures
        (r.0 as int, r.1) == next_initialized_tick_spec(store.bitmap@, tick, tick_spacing, lte),
        lte ==> r.0 <= tick,
        !lte ==> r.0 > tick,
        r.0 as int % tick_spacing as int == 0,
{
    let compressed = floor_div(tick, tick_spacing);
    proof {
        lemma_compressed_bounds(tick as int, tick_spacing as int);
    }
    let target = if lte {
        compressed
    } else {
        compressed + 1
    };
    let word_pos = floor_div(target, 128);
    let bit_pos = (target as i64 - (word_pos as i64) * 128) as u8;
    let word = get_tick_bitmap_word(store, word_pos);
    proof {
        lemma_word_ticks(tick as int, tick_spacing as int, target as int);
        lemma_highest_set_bit(word, bit_pos as int);
        lemma_lowest_set_bit(word, bit_pos as int);
        lemma_found_tick(
            tick as int,
            tick_spacing as int,
            target as int,
            match highest_set_bit_at_or_below(word, bit_pos as int) {
                Some(b) => b as int,
                None => 0,
            },
        );
        lemma_found_tick(
            tick as int,
            tick_spacing as int,
            target as int,
            match lowest_set_bit_at_or_above(word, bit_pos as int) {
                Some(b) => b as int,
                None => 127,
            },
        );
    }
    if lte {
        compute_next_tick_lte(word, word_pos, bit_pos, tick_spacing)
    } else {
        compute_next_tick_gt(word, word_pos, bit_pos, tick_spacing)
    }
}

/// The tick that the search within one word finds lies at or below the
/// tick it starts from, or above it, as the search goes; it fits in 32
/// bits and is on the spacing.
pub proof fn lemma_next_initialized_tick(
    bitmap: Map<i32, u128>,
    tick: i32,
    tick_spacing: i32,
    lte: bool,
)
    requires
        MIN_TICK - 1 <= tick <= MAX_TICK,
        0 < tick_spacing <= MAX_TICK_SPACING,
    ensures
        i32::MIN <= next_initialized_tick_spec(bitmap, tick, tick_spacing, lte).0 <= i32::MAX,
        lte ==> next_initialized_tick_spec(bitmap, tick, tick_spacing, lte).0 <= tick,
        !lte ==> next_initialized_tick_spec(bitmap, tick, tick_spacing, lte).0 > tick,
        next_initialized_tick_spec(bitmap, tick, tick_spacing, lte).0 % (tick_spacing as int) == 0,
{
    let compressed = compressed_tick(tick as int, tick_spacing as int);
    let target = compressed + if lte {
        0int
    } else {
        1int
    };
    lemma_compressed_bounds(tick as int, tick_spacing as int);
    lemma_word_ticks(tick as int, tick_spacing as int, target);
    let word_pos = word_position(target) as i32;
    let bit_pos = bit_position(target) as u8;
    let word = word_in(bitmap, word_pos);
    lemma_highest_set_bit(word, bit_pos as int);
    lemma_lowest_set_bit(word, bit_pos as int);
    let found = if lte {
        match highest_set_bit_at_or_below(word, bit_pos as int) {
            Some(b) => b as int,
            None => 0,
        }
    } else {
        match lowest_set_bit_at_or_above(word, bit_pos as int) {
            Some(b) => b as int,
            None => 127,
        }
    };
    lemma_found_tick(tick as int, tick_spacing as int, target, found);
    crate::tick_bitmap::lemma_tick_between(word_pos as int, found, tick_spacing as int);
}

/// Where the compressed tick of a tick of the domain lies.
pub proof fn lemma_compressed_bounds(tick: int, tick_spacing: int)
    requires
        MIN_TICK - 1 <= tick <= MAX_TICK,
        0 < tick_spacing,
    ensures
        MIN_TICK - 1 <= compressed_tick(tick, tick_spacing) <= MAX_TICK,
        compressed_tick(tick, tick_spacing) * tick_spacing <= tick < (compressed_tick(
            tick,
            tick_spacing,
        ) + 1) * tick_spacing,
{
    let c = tick / tick_spacing;
    vstd::arithmetic::div_mod::lemma_fundamental_div_mod(tick, tick_spacing);
    vstd::arithmetic::div_mod::lemma_mod_bound(tick, tick_spacing);
    assert(c * tick_spacing <= tick < (c + 1) * tick_spacing && MIN_TICK - 1 <= c <= MAX_TICK)
        by (nonlinear_arith)
        requires
            tick == tick_spacing * c + tick % tick_spacing,
            0 <= tick % tick_spacing < tick_spacing,
            MIN_TICK - 1 <= tick <= MAX_TICK,
            MIN_TICK == -443636,
            MAX_TICK == 443636,
    ;
}

/// The ticks at the two ends of the word of a compressed tick fit in 32
/// bits.
proof fn lemma_word_ticks(tick: int, tick_spacing: int, target: int)
    requires
        MIN_TICK - 1 <= tick <= MAX_TICK,
        0 < tick_spacing <= MAX_TICK_SPACING,
        target == compressed_tick(tick, tick_spacing) || target == compressed_tick(
            tick,
            tick_spacing,
        ) + 1,
    ensures
        i32::MIN <= position_tick(word_position(target), 0, tick_spacing) <= i32::MAX,
        i32::MIN <= position_tick(word_position(target), 127, tick_spacing) <= i32::MAX,
        0 <= bit_position(target) < 128,
        word_position(target) * 128 + bit_position(target) == target,
        i32::MIN <= word_position(target) <= i32::MAX,
{
    lemma_compressed_bounds(tick, tick_spacing);
    let w = target / 128;
    let b = target % 128;
    let c = compressed_tick(tick, tick_spacing);
    assert(tick - 128 * tick_spacing <= (w * 128 + 0) * tick_spacing && (w * 128 + 0)
        * tick_spacing <= (w * 128 + 127) * tick_spacing && (w * 128 + 127) * tick_spacing <= tick
        + 128 * tick_spacing) by (nonlinear_arith)
        requires
            c * tick_spacing <= tick < (c + 1) * tick_spacing,
            c <= target <= c + 1,
            w * 128 <= target <= w * 128 + 127,
            0 < tick_spacing,
    ;
}

/// A tick found at a bit at or below the bit of a tick's own position
/// is at or below the tick; one found at a bit at or above the bit of
/// the next position is above it. Either is on the spacing.
proof fn lemma_found_tick(tick: int, tick_spacing: int, target: int, bit: int)
    requires
        0 < tick_spacing,
        MIN_TICK - 1 <= tick <= MAX_TICK,
        0 <= bit < 128,
    ensures
        target == compressed_tick(tick, tick_spacing) && bit <= bit_position(target)
            ==> position_tick(word_position(target), bit, tick_spacing) <= tick,
        target == compressed_tick(tick, tick_spacing) + 1 && bit >= bit_position(target)
            ==> position_tick(word_position(target), bit, tick_spacing) > tick,
        position_tick(word_position(target), bit, tick_spacing) % tick_spacing == 0,
{
    lemma_compressed_bounds(tick, tick_spacing);
    let w = target / 128;
    let b = target % 128;
    let c = compressed_tick(tick, tick_spacing);
    if target == c && bit <= b {
        assert((w * 128 + bit) * tick_spacing <= c * tick_spacing) by (nonlinear_arith)
            requires
                w * 128 + bit <= c,
                tick_spacing > 0,
        ;
    }
    if target == c + 1 && bit >= b {
        assert((w * 128 + bit) * tick_spacing >= (c + 1) * tick_spacing) by (nonlinear_arith)
            requires
                w * 128 + bit >= c + 1,
                tick_spacing > 0,
        ;
    }
    vstd::arithmetic::div_mod::lemma_mod_multiples_basic(w * 128 + bit, tick_spacing);
}

} // verus!
