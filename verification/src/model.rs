//! The pool as a mathematical value, and what holds of it in every
//! state that the operations of the pool can reach.

use vstd::prelude::*;
use crate::constants::{
    FEE_DENOMINATOR, MAX_SQRT_RATIO, MAX_TICK, MAX_TICK_SPACING, MIN_SQRT_RATIO, MIN_TICK,
};
use crate::storage::{
    get_position, get_state, get_tick, lemma_position_index, position_in, position_index,
    stored_positions, tick_in, word_in, keys_unique, PoolStorage, PositionEntry,
};
use crate::error::PoolError;
use crate::tick::{lemma_flip_bit, flip_bit, ticks_with};
use crate::tick_bitmap::{bit_position, bit_set, compressed_tick, position_tick, word_position};
use crate::tick_math::sqrt_ratio_at_tick_spec;
use crate::types::{
    max_liquidity_per_tick_spec, Address, PoolConfig, PoolState, PositionInfo, PositionKey,
    TickInfo,
};
use crate::wide::lemma_div_rem_unique;

verus! {

/// The store of a pool as a mathematical value.
pub struct PoolView {
    pub config: Option<PoolConfig>,
    pub state: Option<PoolState>,
    pub ticks: Map<i32, TickInfo>,
    pub bitmap: Map<i32, u128>,
    pub positions: Seq<PositionEntry>,
}

impl View for PoolStorage {
    type V = PoolView;

    open spec fn view(&self) -> PoolView {
        PoolView {
            config: self.config,
            state: self.state,
            ticks: self.ticks@,
            bitmap: self.bitmap@,
            positions: self.positions@,
        }
    }
}

/// What holds of the configuration of a pool: the tokens are in order,
/// the fee is a proper fraction, the spacing is in range, and the cap
/// per tick goes with the spacing.
pub open spec fn config_wf(config: PoolConfig) -> bool {
    &&& config.token0.spec_lt(&config.token1)
    &&& config.fee < FEE_DENOMINATOR
    &&& 1 <= config.tick_spacing <= MAX_TICK_SPACING
    &&& config.max_liquidity_per_tick as int == max_liquidity_per_tick_spec(
        config.tick_spacing as int,
    )
}

/// What holds of the state of a pool: the price lies strictly inside
/// the price domain, and between the prices of the tick and of the next
/// tick.
pub open spec fn state_wf(state: PoolState) -> bool {
    &&& MIN_SQRT_RATIO < state.sqrt_price_x96 < MAX_SQRT_RATIO
    &&& MIN_TICK <= state.tick < MAX_TICK
    &&& sqrt_ratio_at_tick_spec(state.tick as int) <= state.sqrt_price_x96
    &&& state.sqrt_price_x96 <= sqrt_ratio_at_tick_spec(state.tick + 1)
}

/// What holds of the record of a tick in the store: the tick is in use,
/// on the spacing and in the tick domain, and within the cap per tick.
pub open spec fn tick_wf(tick: i32, info: TickInfo, config: PoolConfig) -> bool {
    &&& info.liquidity_gross > 0
    &&& info.initialized
    &&& info.liquidity_gross <= config.max_liquidity_per_tick
    &&& MIN_TICK <= tick <= MAX_TICK
    &&& tick as int % config.tick_spacing as int == 0
}

/// Whether the bitmap shows the tick of a bit of a word as initialized.
pub open spec fn bit_has_tick(ticks: Map<i32, TickInfo>, word_pos: i32, bit: int, spacing: int) -> bool {
    let tick = position_tick(word_pos as int, bit, spacing);
    i32::MIN <= tick <= i32::MAX && ticks.contains_key(tick as i32)
}

/// The bitmap shows exactly the ticks that have a record.
pub open spec fn bitmap_wf(bitmap: Map<i32, u128>, ticks: Map<i32, TickInfo>, spacing: int) -> bool {
    forall|word_pos: i32, bit: int|
        0 <= bit < 128 ==> (#[trigger] bit_set(word_in(bitmap, word_pos), bit) <==> bit_has_tick(
            ticks,
            word_pos,
            bit,
            spacing,
        ))
}

/// The net liquidity of the ticks in `[lo, hi)`, added up.
pub open spec fn net_sum(ticks: Map<i32, TickInfo>, lo: int, hi: int) -> int
    decreases hi - lo,
{
    if hi <= lo {
        0
    } else {
        net_sum(ticks, lo, hi - 1) + tick_in(ticks, (hi - 1) as i32).liquidity_net
    }
}

/// The liquidity that a position puts at a tick as its lower end, or as
/// its upper end.
pub open spec fn end_weight(entry: PositionEntry, tick: i32, upper: bool) -> int {
    if upper {
        if entry.key.tick_upper == tick {
            entry.info.liquidity as int
        } else {
            0
        }
    } else {
        if entry.key.tick_lower == tick {
            entry.info.liquidity as int
        } else {
            0
        }
    }
}

/// The liquidity of all positions that end at a tick, as their lower or
/// as their upper end.
pub open spec fn end_sum(entries: Seq<PositionEntry>, tick: i32, upper: bool) -> int
    decreases entries.len(),
{
    if entries.len() == 0 {
        0
    } else {
        end_sum(entries.drop_last(), tick, upper) + end_weight(entries.last(), tick, upper)
    }
}

/// The records of the ticks add up the positions: the gross liquidity
/// of a tick is the liquidity of all positions that end at it, its net
/// liquidity that of those that begin at it less that of those that end
/// at it.
pub open spec fn ticks_match_positions(
    ticks: Map<i32, TickInfo>,
    positions: Seq<PositionEntry>,
) -> bool {
    forall|tick: i32|
        {
            &&& (#[trigger] tick_in(ticks, tick)).liquidity_gross as int == end_sum(
                positions,
                tick,
                false,
            ) + end_sum(positions, tick, true)
            &&& tick_in(ticks, tick).liquidity_net as int == end_sum(positions, tick, false)
                - end_sum(positions, tick, true)
        }
}

/// The liquidity that a position puts in at a tick: all of it while the
/// tick is inside the range of the position, its upper end left out.
pub open spec fn in_range_weight(entry: PositionEntry, tick: int) -> int {
    if entry.key.tick_lower <= tick < entry.key.tick_upper {
        entry.info.liquidity as int
    } else {
        0
    }
}

/// The liquidity of all positions whose range holds a tick.
pub open spec fn in_range_sum(entries: Seq<PositionEntry>, tick: int) -> int
    decreases entries.len(),
{
    if entries.len() == 0 {
        0
    } else {
        in_range_sum(entries.drop_last(), tick) + in_range_weight(entries.last(), tick)
    }
}

/// What holds of the positions in the store: each key once, each range
/// with its lower end under its upper end, none vacant.
pub open spec fn positions_wf(positions: Seq<PositionEntry>) -> bool {
    &&& keys_unique(positions)
    &&& forall|i: int|
        0 <= i < positions.len() ==> {
            &&& (#[trigger] positions[i]).key.tick_lower < positions[i].key.tick_upper
            &&& !positions[i].info.is_vacant()
        }
}

impl PoolView {
    /// What holds of a pool in every state: nothing is stored before the
    /// pool is initialized; after that the configuration and the state
    /// are valid, every stored tick is in use, the bitmap shows exactly
    /// the stored ticks, the ticks add up the positions, the net
    /// liquidity of all ticks is zero, and the active liquidity is the
    /// liquidity of the positions whose range holds the current tick.
    pub open spec fn wf(&self) -> bool {
        match (self.config, self.state) {
            (None, None) => {
                &&& self.ticks == Map::<i32, TickInfo>::empty()
                &&& self.bitmap == Map::<i32, u128>::empty()
                &&& self.positions == Seq::<PositionEntry>::empty()
            },
            (Some(config), Some(state)) => {
                &&& config_wf(config)
                &&& state_wf(state)
                &&& forall|tick: i32|
                    self.ticks.contains_key(tick) ==> tick_wf(
                        tick,
                        #[trigger] self.ticks[tick],
                        config,
                    )
                &&& bitmap_wf(self.bitmap, self.ticks, config.tick_spacing as int)
                &&& positions_wf(self.positions)
                &&& ticks_match_positions(self.ticks, self.positions)
                &&& net_sum(self.ticks, MIN_TICK as int, MAX_TICK + 1) == 0
                &&& state.liquidity as int == in_range_sum(self.positions, state.tick as int)
            },
            _ => false,
        }
    }
}

/// Two maps of ticks that differ at one tick only have net sums that
/// differ by the change at that tick.
pub proof fn lemma_net_sum_change(
    before: Map<i32, TickInfo>,
    after: Map<i32, TickInfo>,
    tick: i32,
    lo: int,
    hi: int,
)
    requires
        i32::MIN <= lo,
        hi <= i32::MAX + 1,
        forall|other: i32| other != tick ==> tick_in(after, other) == tick_in(before, other),
    ensures
        net_sum(after, lo, hi) == net_sum(before, lo, hi) + (if lo <= tick < hi {
            tick_in(after, tick).liquidity_net - tick_in(before, tick).liquidity_net
        } else {
            0
        }),
    decreases hi - lo,
{
    if hi > lo {
        lemma_net_sum_change(before, after, tick, lo, hi - 1);
    }
}

/// Appending a position adds its weight to the sum at each tick.
pub proof fn lemma_end_sum_push(
    entries: Seq<PositionEntry>,
    entry: PositionEntry,
    tick: i32,
    upper: bool,
)
    ensures
        end_sum(entries.push(entry), tick, upper) == end_sum(entries, tick, upper) + end_weight(
            entry,
            tick,
            upper,
        ),
{
    assert(entries.push(entry).drop_last() =~= entries);
}

/// Replacing a position exchanges its weight in the sum at each tick.
pub proof fn lemma_end_sum_update(
    entries: Seq<PositionEntry>,
    i: int,
    entry: PositionEntry,
    tick: i32,
    upper: bool,
)
    requires
        0 <= i < entries.len(),
    ensures
        end_sum(entries.update(i, entry), tick, upper) == end_sum(entries, tick, upper)
            - end_weight(entries[i], tick, upper) + end_weight(entry, tick, upper),
    decreases entries.len(),
{
    let updated = entries.update(i, entry);
    if i == entries.len() - 1 {
        assert(updated.drop_last() =~= entries.drop_last());
    } else {
        assert(updated.drop_last() =~= entries.drop_last().update(i, entry));
        lemma_end_sum_update(entries.drop_last(), i, entry, tick, upper);
    }
}

/// Taking a position out takes its weight off the sum at each tick.
pub proof fn lemma_end_sum_remove(entries: Seq<PositionEntry>, i: int, tick: i32, upper: bool)
    requires
        0 <= i < entries.len(),
    ensures
        end_sum(entries.remove(i), tick, upper) == end_sum(entries, tick, upper) - end_weight(
            entries[i],
            tick,
            upper,
        ),
    decreases entries.len(),
{
    let removed = entries.remove(i);
    if i == entries.len() - 1 {
        assert(removed =~= entries.drop_last());
    } else {
        assert(removed.drop_last() =~= entries.drop_last().remove(i));
        assert(removed.last() == entries.last());
        lemma_end_sum_remove(entries.drop_last(), i, tick, upper);
    }
}

/// The end of a range that a sum counts.
pub open spec fn range_end(key: PositionKey, upper: bool) -> i32 {
    if upper {
        key.tick_upper
    } else {
        key.tick_lower
    }
}

/// Storing a record under a key changes the sum at the ends of the key
/// by the change of the liquidity under that key, and no other sum.
pub proof fn lemma_end_sum_stored(
    entries: Seq<PositionEntry>,
    key: PositionKey,
    info: PositionInfo,
    tick: i32,
    upper: bool,
)
    ensures
        end_sum(stored_positions(entries, key, info), tick, upper) == end_sum(
            entries,
            tick,
            upper,
        ) + (if range_end(key, upper) == tick {
            info.liquidity - position_in(entries, key).liquidity
        } else {
            0
        }),
{
    let n = entries.len() as int;
    let i = position_index(entries, key, n);
    lemma_position_index(entries, key, n);
    let entry = PositionEntry { key, info };
    if i < n {
        if info.is_vacant() {
            lemma_end_sum_remove(entries, i, tick, upper);
        } else {
            lemma_end_sum_update(entries, i, entry, tick, upper);
        }
    } else if !info.is_vacant() {
        lemma_end_sum_push(entries, entry, tick, upper);
    }
}

/// A bit of a word stands for one tick, and a tick on the spacing for
/// one bit of one word.
pub proof fn lemma_bit_of_tick(word_pos: int, bit: int, spacing: int)
    requires
        0 <= bit < 128,
        spacing > 0,
    ensures
        word_position(compressed_tick(position_tick(word_pos, bit, spacing), spacing))
            == word_pos,
        bit_position(compressed_tick(position_tick(word_pos, bit, spacing), spacing)) == bit,
        position_tick(word_pos, bit, spacing) % spacing == 0,
{
    let c = word_pos * 128 + bit;
    vstd::arithmetic::div_mod::lemma_div_multiples_vanish(c, spacing);
    vstd::arithmetic::div_mod::lemma_mod_multiples_basic(c, spacing);
    assert(c * spacing == spacing * c) by (nonlinear_arith);
    lemma_div_rem_unique(c, 128, word_pos, bit);
}

/// A tick on the spacing is the tick of its own bit.
pub proof fn lemma_tick_of_bit(tick: int, spacing: int)
    requires
        spacing > 0,
        tick % spacing == 0,
    ensures
        position_tick(
            word_position(compressed_tick(tick, spacing)),
            bit_position(compressed_tick(tick, spacing)),
            spacing,
        ) == tick,
        0 <= bit_position(compressed_tick(tick, spacing)) < 128,
{
    let c = tick / spacing;
    vstd::arithmetic::div_mod::lemma_fundamental_div_mod(tick, spacing);
    vstd::arithmetic::div_mod::lemma_fundamental_div_mod(c, 128);
    assert(spacing * c == c * spacing) by (nonlinear_arith);
}

/// The sum of the liquidity that ends at a tick is not negative.
pub proof fn lemma_end_sum_nonnegative(entries: Seq<PositionEntry>, tick: i32, upper: bool)
    ensures
        end_sum(entries, tick, upper) >= 0,
    decreases entries.len(),
{
    if entries.len() > 0 {
        lemma_end_sum_nonnegative(entries.drop_last(), tick, upper);
    }
}

/// Every entry of the list after a record is stored under a key is the
/// stored record or an entry of the list before.
pub proof fn lemma_stored_entries(
    entries: Seq<PositionEntry>,
    key: PositionKey,
    info: PositionInfo,
)
    ensures
        forall|j: int|
            0 <= j < stored_positions(entries, key, info).len() ==> {
                ||| (#[trigger] stored_positions(entries, key, info)[j]) == (PositionEntry {
                    key,
                    info,
                }) && !info.is_vacant()
                ||| exists|i: int|
                    0 <= i < entries.len() && entries[i] == stored_positions(
                        entries,
                        key,
                        info,
                    )[j]
            },
{
    let n = entries.len() as int;
    let i = position_index(entries, key, n);
    let after = stored_positions(entries, key, info);
    lemma_position_index(entries, key, n);
    assert forall|j: int| 0 <= j < after.len() implies {
        ||| (#[trigger] after[j]) == (PositionEntry { key, info }) && !info.is_vacant()
        ||| exists|k: int| 0 <= k < entries.len() && entries[k] == after[j]
    } by {
        if i < n {
            if info.is_vacant() {
                let k = if j < i {
                    j
                } else {
                    j + 1
                };
                assert(entries[k] == after[j]);
            } else if j != i {
                assert(entries[j] == after[j]);
            }
        } else if !info.is_vacant() {
            if j < n {
                assert(entries[j] == after[j]);
            }
        } else {
            assert(entries[j] == after[j]);
        }
    }
}

/// Storing the record of one tick, and toggling its bit where the tick
/// comes into use or goes out of use, keeps every stored tick in use
/// and the bitmap in step with the stored ticks.
pub proof fn lemma_tick_step(
    ticks: Map<i32, TickInfo>,
    bitmap: Map<i32, u128>,
    config: PoolConfig,
    tick: i32,
    info: TickInfo,
    flipped: bool,
)
    requires
        1 <= config.tick_spacing,
        forall|other: i32| ticks.contains_key(other) ==> tick_wf(other, #[trigger] ticks[other], config),
        bitmap_wf(bitmap, ticks, config.tick_spacing as int),
        MIN_TICK <= tick <= MAX_TICK,
        tick as int % config.tick_spacing as int == 0,
        info.liquidity_gross > 0 ==> tick_wf(tick, info, config),
        flipped == ((info.liquidity_gross > 0) != ticks.contains_key(tick)),
    ensures
        forall|other: i32|
            ticks_with(ticks, tick, info).contains_key(other) ==> tick_wf(
                other,
                #[trigger] ticks_with(ticks, tick, info)[other],
                config,
            ),
        bitmap_wf(
            if flipped {
                crate::tick::bitmap_flipped(bitmap, tick, config.tick_spacing)
            } else {
                bitmap
            },
            ticks_with(ticks, tick, info),
            config.tick_spacing as int,
        ),
{
    let spacing = config.tick_spacing as int;
    let compressed = compressed_tick(tick as int, spacing);
    let own_word = word_position(compressed);
    let own_bit = bit_position(compressed);
    let after_ticks = ticks_with(ticks, tick, info);
    let after_bitmap = if flipped {
        crate::tick::bitmap_flipped(bitmap, tick, config.tick_spacing)
    } else {
        bitmap
    };
    lemma_tick_of_bit(tick as int, spacing);
    crate::tick::lemma_compressed_bounds(tick as int, spacing);
    assert(i32::MIN <= own_word <= i32::MAX);
    let old_word = word_in(bitmap, own_word as i32);
    lemma_flip_bit(old_word, own_bit as u8);
    assert forall|word_pos: i32, bit: int| 0 <= bit < 128 implies (#[trigger] bit_set(
        word_in(after_bitmap, word_pos),
        bit,
    ) <==> bit_has_tick(after_ticks, word_pos, bit, spacing)) by {
        let there = position_tick(word_pos as int, bit, spacing);
        lemma_bit_of_tick(word_pos as int, bit, spacing);
        assert(bit_set(word_in(bitmap, word_pos), bit) <==> bit_has_tick(
            ticks,
            word_pos,
            bit,
            spacing,
        ));
        if word_pos as int == own_word && bit == own_bit {
            assert(there == tick);
        } else {
            assert(there != tick);
            if word_pos as int == own_word {
                assert(bit_set(flip_bit(old_word, own_bit as u8), bit) == bit_set(old_word, bit));
            }
        }
    }
}

/// In every state of an initialized pool the net liquidity of all ticks
/// adds up to zero.
pub proof fn liquidity_net_balance(view: PoolView)
    requires
        view.wf(),
        view.config is Some,
    ensures
        net_sum(view.ticks, MIN_TICK as int, MAX_TICK + 1) == 0,
{
}

/// In every state of an initialized pool, of every tick: the net
/// liquidity is at most the gross liquidity in size, and the tick is
/// marked as initialized exactly where its gross liquidity is not zero.
pub proof fn liquidity_net_bounded_by_gross(view: PoolView, tick: i32)
    requires
        view.wf(),
        view.config is Some,
    ensures
        -(tick_in(view.ticks, tick).liquidity_gross as int) <= tick_in(
            view.ticks,
            tick,
        ).liquidity_net <= tick_in(view.ticks, tick).liquidity_gross,
        tick_in(view.ticks, tick).initialized <==> tick_in(view.ticks, tick).liquidity_gross > 0,
        view.ticks.contains_key(tick) <==> tick_in(view.ticks, tick).initialized,
{
    lemma_end_sum_nonnegative(view.positions, tick, false);
    lemma_end_sum_nonnegative(view.positions, tick, true);
    assert(tick_in(view.ticks, tick).liquidity_gross as int == end_sum(
        view.positions,
        tick,
        false,
    ) + end_sum(view.positions, tick, true));
    if view.ticks.contains_key(tick) {
        assert(tick_wf(tick, view.ticks[tick], view.config->Some_0));
    }
}

/// In every state of an initialized pool, of every tick on the
/// spacing and in the tick domain: the bit of the tick is set in the
/// bitmap exactly where the tick is marked as initialized.
pub proof fn initialized_tick_has_bit(view: PoolView, tick: i32)
    requires
        view.wf(),
        view.config is Some,
        MIN_TICK <= tick <= MAX_TICK,
        tick as int % view.config->Some_0.tick_spacing as int == 0,
    ensures
        ({
            let spacing = view.config->Some_0.tick_spacing as int;
            let compressed = compressed_tick(tick as int, spacing);
            bit_set(
                word_in(view.bitmap, word_position(compressed) as i32),
                bit_position(compressed),
            ) <==> tick_in(view.ticks, tick).initialized
        }),
{
    let spacing = view.config->Some_0.tick_spacing as int;
    let compressed = compressed_tick(tick as int, spacing);
    liquidity_net_bounded_by_gross(view, tick);
    lemma_tick_of_bit(tick as int, spacing);
    crate::tick::lemma_compressed_bounds(tick as int, spacing);
    let word_pos = word_position(compressed) as i32;
    assert(bit_set(word_in(view.bitmap, word_pos), bit_position(compressed)) <==> bit_has_tick(
        view.ticks,
        word_pos,
        bit_position(compressed),
        spacing,
    ));
}

/// In every state of an initialized pool the tick is the tick of the
/// price, or the tick just below it: the two are never more than one
/// tick apart.
pub proof fn tick_consistent_with_price(view: PoolView)
    requires
        view.wf(),
        view.state is Some,
    ensures
        crate::tick_math::tick_at_sqrt_ratio_spec(view.state->Some_0.sqrt_price_x96) is Ok,
        ({
            let state = view.state->Some_0;
            let of_price = crate::tick_math::tick_at_sqrt_ratio_spec(state.sqrt_price_x96)->Ok_0;
            state.tick == of_price || state.tick + 1 == of_price
        }),
{
    let state = view.state->Some_0;
    let price = state.sqrt_price_x96;
    crate::tick_math::lemma_tick_at_sqrt_ratio_brackets(price);
    let found = crate::tick_math::largest_tick_at_or_below(price as int, MAX_TICK as int);
    if found >= state.tick + 2 {
        crate::tick_math::sqrt_ratio_strictly_monotonic(state.tick + 1, found);
    }
}

/// What a pool shows of its state at one moment, to compare before and
/// after an operation.
#[derive(Clone, Copy, Debug, PartialEq, Eq, Structural)]
pub struct PoolSnapshot {
    pub sqrt_price_x96: u128,
    pub tick: i32,
    pub liquidity: u128,
    pub fee_growth_global_0: u128,
    pub fee_growth_global_1: u128,
}

impl PoolSnapshot {
    /// The snapshot of a state.
    pub open spec fn of(state: PoolState) -> PoolSnapshot {
        PoolSnapshot {
            sqrt_price_x96: state.sqrt_price_x96,
            tick: state.tick,
            liquidity: state.liquidity,
            fee_growth_global_0: state.fee_growth_global_0_x128,
            fee_growth_global_1: state.fee_growth_global_1_x128,
        }
    }

    /// Takes the snapshot of a pool; fails before the pool is
    /// initialized.
    pub fn capture(store: &PoolStorage) -> (r: Result<PoolSnapshot, PoolError>)
        ensures
            r == (match store.state {
                Some(state) => Ok::<PoolSnapshot, PoolError>(PoolSnapshot::of(state)),
                None => Err(PoolError::NotInitialized),
            }),
    {
        let state = get_state(store)?;
        Ok(
            PoolSnapshot {
                sqrt_price_x96: state.sqrt_price_x96,
                tick: state.tick,
                liquidity: state.liquidity,
                fee_growth_global_0: state.fee_growth_global_0_x128,
                fee_growth_global_1: state.fee_growth_global_1_x128,
            },
        )
    }
}

/// What a pool shows of a position at one moment.
#[derive(Clone, Copy, Debug, PartialEq, Eq, Structural)]
pub struct PositionSnapshot {
    pub liquidity: u128,
    pub tokens_owed_0: u128,
    pub tokens_owed_1: u128,
}

impl PositionSnapshot {
    /// Takes the snapshot of the position of an owner over a range.
    pub fn capture(store: &PoolStorage, owner: &Address, tick_lower: i32, tick_upper: i32) -> (r:
        PositionSnapshot)
        ensures
            r == ({
                let position = store.position_at(
                    PositionKey { owner: *owner, tick_lower, tick_upper },
                );
                PositionSnapshot {
                    liquidity: position.liquidity,
                    tokens_owed_0: position.tokens_owed_0,
                    tokens_owed_1: position.tokens_owed_1,
                }
            }),
    {
        let position = get_position(store, &PositionKey { owner: *owner, tick_lower, tick_upper });
        PositionSnapshot {
            liquidity: position.liquidity,
            tokens_owed_0: position.tokens_owed_0,
            tokens_owed_1: position.tokens_owed_1,
        }
    }
}

/// What a pool shows of a tick at one moment.
#[derive(Clone, Copy, Debug, PartialEq, Eq, Structural)]
pub struct TickSnapshot {
    pub liquidity_gross: u128,
    pub liquidity_net: i128,
    pub initialized: bool,
}

impl TickSnapshot {
    /// Takes the snapshot of a tick.
    pub fn capture(store: &PoolStorage, tick: i32) -> (r: TickSnapshot)
        ensures
            r == (TickSnapshot {
                liquidity_gross: store.tick_at(tick).liquidity_gross,
                liquidity_net: store.tick_at(tick).liquidity_net,
                initialized: store.tick_at(tick).initialized,
            }),
    {
        let info = get_tick(store, tick);
        TickSnapshot {
            liquidity_gross: info.liquidity_gross,
            liquidity_net: info.liquidity_net,
            initialized: info.initialized,
        }
    }
}

/// Appending a position adds its weight to the liquidity in range.
pub proof fn lemma_in_range_sum_push(entries: Seq<PositionEntry>, entry: PositionEntry, tick: int)
    ensures
        in_range_sum(entries.push(entry), tick) == in_range_sum(entries, tick) + in_range_weight(
            entry,
            tick,
        ),
{
    assert(entries.push(entry).drop_last() =~= entries);
}

/// Replacing a position exchanges its weight in the liquidity in range.
pub proof fn lemma_in_range_sum_update(
    entries: Seq<PositionEntry>,
    i: int,
    entry: PositionEntry,
    tick: int,
)
    requires
        0 <= i < entries.len(),
    ensures
        in_range_sum(entries.update(i, entry), tick) == in_range_sum(entries, tick)
            - in_range_weight(entries[i], tick) + in_range_weight(entry, tick),
    decreases entries.len(),
{
    let updated = entries.update(i, entry);
    if i == entries.len() - 1 {
        assert(updated.drop_last() =~= entries.drop_last());
    } else {
        assert(updated.drop_last() =~= entries.drop_last().update(i, entry));
        lemma_in_range_sum_update(entries.drop_last(), i, entry, tick);
    }
}

/// Taking a position out takes its weight off the liquidity in range.
pub proof fn lemma_in_range_sum_remove(entries: Seq<PositionEntry>, i: int, tick: int)
    requires
        0 <= i < entries.len(),
    ensures
        in_range_sum(entries.remove(i), tick) == in_range_sum(entries, tick) - in_range_weight(
            entries[i],
            tick,
        ),
    decreases entries.len(),
{
    let removed = entries.remove(i);
    if i == entries.len() - 1 {
        assert(removed =~= entries.drop_last());
    } else {
        assert(removed.drop_last() =~= entries.drop_last().remove(i));
        assert(removed.last() == entries.last());
        lemma_in_range_sum_remove(entries.drop_last(), i, tick);
    }
}

/// Storing a record under a key changes the liquidity in range at the
/// ticks inside the range of the key by the change of the liquidity
/// under that key, and at no other tick.
pub proof fn lemma_in_range_sum_stored(
    entries: Seq<PositionEntry>,
    key: PositionKey,
    info: PositionInfo,
    tick: int,
)
    ensures
        in_range_sum(stored_positions(entries, key, info), tick) == in_range_sum(entries, tick) + (
        if key.tick_lower <= tick < key.tick_upper {
            info.liquidity - position_in(entries, key).liquidity
        } else {
            0
        }),
{
    let n = entries.len() as int;
    let i = position_index(entries, key, n);
    lemma_position_index(entries, key, n);
    let entry = PositionEntry { key, info };
    if i < n {
        if info.is_vacant() {
            lemma_in_range_sum_remove(entries, i, tick);
        } else {
            lemma_in_range_sum_update(entries, i, entry, tick);
        }
    } else if !info.is_vacant() {
        lemma_in_range_sum_push(entries, entry, tick);
    }
}

/// From one tick to the next the liquidity in range changes by what
/// begins at the next tick less what ends at it.
pub proof fn lemma_in_range_step(entries: Seq<PositionEntry>, tick: i32)
    requires
        forall|i: int|
            0 <= i < entries.len() ==> (#[trigger] entries[i]).key.tick_lower
                < entries[i].key.tick_upper,
    ensures
        in_range_sum(entries, tick as int) - in_range_sum(entries, tick - 1) == end_sum(
            entries,
            tick,
            false,
        ) - end_sum(entries, tick, true),
    decreases entries.len(),
{
    if entries.len() > 0 {
        let rest = entries.drop_last();
        assert forall|i: int| 0 <= i < rest.len() implies (#[trigger] rest[i]).key.tick_lower
            < rest[i].key.tick_upper by {
            assert(rest[i] == entries[i]);
        }
        lemma_in_range_step(rest, tick);
        assert(entries.last() == entries[entries.len() - 1]);
    }
}

/// Over a stretch of ticks that are not stored, the liquidity in range
/// stays the same.
pub proof fn lemma_in_range_constant(view: PoolView, from: int, to: int)
    requires
        view.wf(),
        view.config is Some,
        i32::MIN <= from <= to <= i32::MAX,
        forall|tick: i32| from < tick <= to ==> !view.ticks.contains_key(tick),
    ensures
        in_range_sum(view.positions, from) == in_range_sum(view.positions, to),
    decreases to - from,
{
    if from < to {
        lemma_in_range_constant(view, from, to - 1);
        let tick = to as i32;
        lemma_in_range_step(view.positions, tick);
        lemma_end_sum_nonnegative(view.positions, tick, false);
        lemma_end_sum_nonnegative(view.positions, tick, true);
        assert(tick_in(view.ticks, tick).liquidity_gross as int == end_sum(
            view.positions,
            tick,
            false,
        ) + end_sum(view.positions, tick, true));
    }
}

/// Across a tick the liquidity in range changes by the net liquidity
/// of the tick.
pub proof fn lemma_in_range_across(view: PoolView, tick: i32)
    requires
        view.wf(),
        view.config is Some,
    ensures
        in_range_sum(view.positions, tick as int) - in_range_sum(view.positions, tick - 1)
            == tick_in(view.ticks, tick).liquidity_net,
{
    lemma_in_range_step(view.positions, tick);
    assert(tick_in(view.ticks, tick).liquidity_net as int == end_sum(view.positions, tick, false)
        - end_sum(view.positions, tick, true));
}

/// What the search for the next initialized tick finds is the nearest
/// stored tick of its word on the side it searches: no tick between the
/// tick it starts from and the tick it finds is stored, and it says
/// that the tick it finds is initialized exactly where that tick is
/// stored.
pub proof fn lemma_search_finds_nearest(view: PoolView, tick: i32, lte: bool)
    requires
        view.wf(),
        view.config is Some,
        MIN_TICK - 1 <= tick <= MAX_TICK,
    ensures
        ({
            let found = crate::tick::next_initialized_tick_spec(
                view.bitmap,
                tick,
                view.config->Some_0.tick_spacing,
                lte,
            );
            &&& i32::MIN <= found.0 <= i32::MAX
            &&& found.1 <==> view.ticks.contains_key(found.0 as i32)
            &&& lte ==> forall|other: i32|
                found.0 < other <= tick ==> !view.ticks.contains_key(other)
            &&& !lte ==> forall|other: i32|
                tick < other < found.0 ==> !view.ticks.contains_key(other)
        }),
{
    let config = view.config->Some_0;
    let spacing = config.tick_spacing as int;
    let found = crate::tick::next_initialized_tick_spec(view.bitmap, tick, config.tick_spacing, lte);
    let compressed = compressed_tick(tick as int, spacing);
    let target = compressed + if lte {
        0int
    } else {
        1int
    };
    let word_pos = word_position(target) as i32;
    let bit_pos = bit_position(target);
    let word = word_in(view.bitmap, word_pos);
    crate::tick::lemma_next_initialized_tick(view.bitmap, tick, config.tick_spacing, lte);
    crate::tick::lemma_compressed_bounds(tick as int, spacing);
    crate::tick_bitmap::lemma_highest_set_bit(word, bit_pos);
    crate::tick_bitmap::lemma_lowest_set_bit(word, bit_pos);
    let found_bit: int = if lte {
        match crate::tick_bitmap::highest_set_bit_at_or_below(word, bit_pos) {
            Some(b) => b as int,
            None => 0,
        }
    } else {
        match crate::tick_bitmap::lowest_set_bit_at_or_above(word, bit_pos) {
            Some(b) => b as int,
            None => 127,
        }
    };
    assert(found.0 == position_tick(word_pos as int, found_bit, spacing));
    assert(word_pos as int * 128 + bit_pos == target);
    assert(bit_set(word, found_bit) <==> bit_has_tick(view.ticks, word_pos, found_bit, spacing));
    assert forall|other: i32|
        view.ticks.contains_key(other) && (if lte {
            found.0 < other <= tick
        } else {
            tick < other < found.0
        }) implies false by {
        assert(tick_wf(other, view.ticks[other], config));
        let k = compressed_tick(other as int, spacing);
        lemma_tick_of_bit(other as int, spacing);
        crate::tick::lemma_compressed_bounds(other as int, spacing);
        let w = word_position(k);
        let b = bit_position(k);
        assert(position_tick(w, b, spacing) == other);
        assert(bit_set(word_in(view.bitmap, w as i32), b) <==> bit_has_tick(
            view.ticks,
            w as i32,
            b,
            spacing,
        ));
        // the place of the other tick, against the place of the found one
        assert(k * spacing == other) by (nonlinear_arith)
            requires
                (w * 128 + b) * spacing == other,
                w * 128 + b == k,
        ;
        if lte {
            assert(word_pos as int * 128 + found_bit < k <= target) by (nonlinear_arith)
                requires
                    (word_pos as int * 128 + found_bit) * spacing < k * spacing,
                    k * spacing <= tick,
                    tick < (target + 1) * spacing,
                    spacing > 0,
            ;
        } else {
            assert(target <= k < word_pos as int * 128 + found_bit) by (nonlinear_arith)
                requires
                    k * spacing < (word_pos as int * 128 + found_bit) * spacing,
                    tick < k * spacing,
                    (target - 1) * spacing <= tick,
                    spacing > 0,
            ;
        }
        assert(w == word_pos as int && b == k - word_pos as int * 128);
    }
}

} // verus!
