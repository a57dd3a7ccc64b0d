//! The store of one pool: its configuration and state, the records of
//! its ticks and positions, and the bitmap of initialized ticks.
//!
//! Records that return to their identity value are removed, so that the
//! store holds an entry only for what is in use.

use vstd::prelude::*;
use std::collections::HashMap;
use crate::error::PoolError;
use crate::types::{PoolConfig, PoolState, PositionInfo, PositionKey, TickInfo};

verus! {

broadcast use vstd::std_specs::hash::group_hash_axioms;

/// A position with its key, as the store lists it.
#[derive(Clone, Copy, Debug, PartialEq, Eq, Structural)]
pub struct PositionEntry {
    pub key: PositionKey,
    pub info: PositionInfo,
}

/// Everything that a pool keeps between operations.
pub struct PoolStorage {
    pub config: Option<PoolConfig>,
    pub state: Option<PoolState>,
    /// Records of the initialized ticks, by tick.
    pub ticks: HashMap<i32, TickInfo>,
    /// Words of the tick bitmap that are not zero, by word position.
    pub bitmap: HashMap<i32, u128>,
    /// Records of the positions in use, each key once.
    pub positions: Vec<PositionEntry>,
}

/// The record of a tick in a map of ticks; the empty record where the
/// map has none.
pub open spec fn tick_in(ticks: Map<i32, TickInfo>, tick: i32) -> TickInfo {
    if ticks.contains_key(tick) {
        ticks[tick]
    } else {
        TickInfo::empty()
    }
}

/// A word of a bitmap; zero where the map has none.
pub open spec fn word_in(bitmap: Map<i32, u128>, word_pos: i32) -> u128 {
    if bitmap.contains_key(word_pos) {
        bitmap[word_pos]
    } else {
        0
    }
}

/// The index of the first entry with the given key among the first `n`,
/// or `n` where there is none.
pub open spec fn position_index(entries: Seq<PositionEntry>, key: PositionKey, n: int) -> int
    decreases n,
{
    if n <= 0 {
        0
    } else {
        let before = position_index(entries, key, n - 1);
        if before < n - 1 {
            before
        } else if entries[n - 1].key == key {
            n - 1
        } else {
            n
        }
    }
}

/// The record of a position in a list; the empty record where the list
/// has none.
pub open spec fn position_in(entries: Seq<PositionEntry>, key: PositionKey) -> PositionInfo {
    let i = position_index(entries, key, entries.len() as int);
    if i < entries.len() {
        entries[i].info
    } else {
        PositionInfo::empty()
    }
}

/// No key occurs twice in the list.
pub open spec fn keys_unique(entries: Seq<PositionEntry>) -> bool {
    forall|i: int, j: int|
        0 <= i < j < entries.len() ==> (#[trigger] entries[i]).key != (#[trigger] entries[j]).key
}

/// Where the first entry with a key stands, as `position_index` finds it.
pub proof fn lemma_position_index(entries: Seq<PositionEntry>, key: PositionKey, n: int)
    requires
        0 <= n <= entries.len(),
    ensures
        0 <= position_index(entries, key, n) <= n,
        position_index(entries, key, n) < n ==> entries[position_index(entries, key, n)].key
            == key,
        forall|j: int| 0 <= j < position_index(entries, key, n) ==> entries[j].key != key,
    decreases n,
{
    if n > 0 {
        lemma_position_index(entries, key, n - 1);
    }
}

/// An index that holds the key, with no earlier one that does, is the
/// index that `position_index` finds.
pub proof fn lemma_position_index_is(entries: Seq<PositionEntry>, key: PositionKey, n: int, i: int)
    requires
        0 <= i <= n <= entries.len(),
        i < n ==> entries[i].key == key,
        forall|j: int| 0 <= j < i ==> entries[j].key != key,
    ensures
        position_index(entries, key, n) == i,
    decreases n,
{
    if n > 0 {
        if i < n {
            if i < n - 1 {
                lemma_position_index_is(entries, key, n - 1, i);
            } else {
                lemma_position_index_is(entries, key, n - 1, n - 1);
            }
        } else {
            lemma_position_index_is(entries, key, n - 1, n - 1);
        }
    }
}

impl PoolStorage {
    /// The record of a tick; the empty record where none is stored.
    pub open spec fn tick_at(&self, tick: i32) -> TickInfo {
        tick_in(self.ticks@, tick)
    }

    /// A word of the tick bitmap; zero where none is stored.
    pub open spec fn word_at(&self, word_pos: i32) -> u128 {
        word_in(self.bitmap@, word_pos)
    }

    /// The record of a position; the empty record where none is stored.
    pub open spec fn position_at(&self, key: PositionKey) -> PositionInfo {
        position_in(self.positions@, key)
    }

    /// The store of a pool that was not initialized yet.
    pub fn new() -> (r: PoolStorage)
        ensures
            r.config is None,
            r.state is None,
            r.ticks@ == Map::<i32, TickInfo>::empty(),
            r.bitmap@ == Map::<i32, u128>::empty(),
            r.positions@ == Seq::<PositionEntry>::empty(),
    {
        PoolStorage {
            config: None,
            state: None,
            ticks: HashMap::new(),
            bitmap: HashMap::new(),
            positions: Vec::new(),
        }
    }
}

/// The configuration of the pool; fails before the pool is initialized.
pub fn get_config(store: &PoolStorage) -> (r: Result<PoolConfig, PoolError>)
    ensures
        r == (match store.config {
            Some(config) => Ok::<PoolConfig, PoolError>(config),
            None => Err(PoolError::NotInitialized),
        }),
{
    match store.config {
        Some(config) => Ok(config),
        None => Err(PoolError::NotInitialized),
    }
}

pub fn set_config(store: &mut PoolStorage, config: &PoolConfig)
    ensures
        final(store).config == Some(*config),
        final(store).state == old(store).state,
        final(store).ticks == old(store).ticks,
        final(store).bitmap == old(store).bitmap,
        final(store).positions == old(store).positions,
{
    store.config = Some(*config);
}

/// The state of the pool; fails before the pool is initialized.
pub fn get_state(store: &PoolStorage) -> (r: Result<PoolState, PoolError>)
    ensures
        r == (match store.state {
            Some(state) => Ok::<PoolState, PoolError>(state),
            None => Err(PoolError::NotInitialized),
        }),
{
    match store.state {
        Some(state) => Ok(state),
        None => Err(PoolError::NotInitialized),
    }
}

pub fn set_state(store: &mut PoolStorage, state: &PoolState)
    ensures
        final(store).state == Some(*state),
        final(store).config == old(store).config,
        final(store).ticks == old(store).ticks,
        final(store).bitmap == old(store).bitmap,
        final(store).positions == old(store).positions,
{
    store.state = Some(*state);
}

/// The record of a tick; the empty record where none is stored.
pub fn get_tick(store: &PoolStorage, tick: i32) -> (r: TickInfo)
    ensures
        r == store.tick_at(tick),
{
    match store.ticks.get(&tick) {
        Some(info) => *info,
        None => TickInfo::new(),
    }
}

/// Stores the record of a tick, or removes the tick where the record
/// holds no liquidity.
pub fn set_tick(store: &mut PoolStorage, tick: i32, info: &TickInfo)
    ensures
        final(store).ticks@ == (if info.liquidity_gross == 0 {
            old(store).ticks@.remove(tick)
        } else {
            old(store).ticks@.insert(tick, *info)
        }),
        final(store).config == old(store).config,
        final(store).state == old(store).state,
        final(store).bitmap == old(store).bitmap,
        final(store).positions == old(store).positions,
{
    if info.liquidity_gross == 0 {
        store.ticks.remove(&tick);
    } else {
        store.ticks.insert(tick, *info);
    }
}

/// Whether a record is stored for the tick.
pub fn has_tick(store: &PoolStorage, tick: i32) -> (r: bool)
    ensures
        r == store.ticks@.contains_key(tick),
{
    store.ticks.contains_key(&tick)
}

/// A word of the tick bitmap; zero where none is stored.
pub fn get_tick_bitmap_word(store: &PoolStorage, word_pos: i32) -> (r: u128)
    ensures
        r == store.word_at(word_pos),
{
    match store.bitmap.get(&word_pos) {
        Some(word) => *word,
        None => 0,
    }
}

/// Stores a word of the tick bitmap, or removes it where it is zero.
pub fn set_tick_bitmap_word(store: &mut PoolStorage, word_pos: i32, bitmap: u128)
    ensures
        final(store).bitmap@ == (if bitmap == 0 {
            old(store).bitmap@.remove(word_pos)
        } else {
            old(store).bitmap@.insert(word_pos, bitmap)
        }),
        final(store).word_at(word_pos) == bitmap,
        forall|other: i32|
            other != word_pos ==> final(store).word_at(other) == old(store).word_at(other),
        final(store).config == old(store).config,
        final(store).state == old(store).state,
        final(store).ticks == old(store).ticks,
        final(store).positions == old(store).positions,
{
    if bitmap == 0 {
        store.bitmap.remove(&word_pos);
    } else {
        store.bitmap.insert(word_pos, bitmap);
    }
}

/// The index of the entry with the given key, or the length of the list
/// where there is none.
fn find_position(entries: &Vec<PositionEntry>, key: &PositionKey) -> (r: usize)
    ensures
        r as int == position_index(entries@, *key, entries@.len() as int),
        r <= entries@.len(),
{
    let mut i: usize = 0;
    while i < entries.len()
        invariant
            0 <= i <= entries@.len(),
            forall|j: int| 0 <= j < i ==> entries@[j].key != *key,
        decreases entries@.len() - i,
    {
        if entries[i].key == *key {
            proof {
                lemma_position_index_is(entries@, *key, entries@.len() as int, i as int);
            }
            return i;
        }
        i = i + 1;
    }
    proof {
        lemma_position_index_is(entries@, *key, entries@.len() as int, i as int);
    }
    i
}

/// The record of a position; the empty record where none is stored.
pub fn get_position(store: &PoolStorage, key: &PositionKey) -> (r: PositionInfo)
    ensures
        r == store.position_at(*key),
{
    let i = find_position(&store.positions, key);
    if i < store.positions.len() {
        store.positions[i].info
    } else {
        PositionInfo::new()
    }
}

/// Stores the record of a position, or removes the position where the
/// record holds neither liquidity nor owed tokens.
pub fn set_position(store: &mut PoolStorage, key: &PositionKey, info: &PositionInfo)
    requires
        keys_unique(old(store).positions@),
    ensures
        keys_unique(final(store).positions@),
        final(store).position_at(*key) == (if info.is_vacant() {
            PositionInfo::empty()
        } else {
            *info
        }),
        forall|other: PositionKey|
            other != *key ==> final(store).position_at(other) == old(store).position_at(other),
        final(store).positions@ == stored_positions(old(store).positions@, *key, *info),
        final(store).config == old(store).config,
        final(store).state == old(store).state,
        final(store).ticks == old(store).ticks,
        final(store).bitmap == old(store).bitmap,
{
    let i = find_position(&store.positions, key);
    let vacant = info.liquidity == 0 && info.tokens_owed_0 == 0 && info.tokens_owed_1 == 0;
    proof {
        lemma_stored_positions(store.positions@, *key, *info);
    }
    if i < store.positions.len() {
        if vacant {
            store.positions.remove(i);
        } else {
            store.positions.set(i, PositionEntry { key: *key, info: *info });
        }
    } else if !vacant {
        store.positions.push(PositionEntry { key: *key, info: *info });
    }
}

/// The list of positions after a record is stored under a key: the
/// entry of the key is replaced, appended where there was none, and
/// taken out where the record is vacant.
pub open spec fn stored_positions(
    entries: Seq<PositionEntry>,
    key: PositionKey,
    info: PositionInfo,
) -> Seq<PositionEntry> {
    let i = position_index(entries, key, entries.len() as int);
    if i < entries.len() {
        if info.is_vacant() {
            entries.remove(i)
        } else {
            entries.update(i, PositionEntry { key, info })
        }
    } else if !info.is_vacant() {
        entries.push(PositionEntry { key, info })
    } else {
        entries
    }
}

/// Storing a record under a key changes what is found under that key,
/// and nothing else.
pub proof fn lemma_stored_positions(
    entries: Seq<PositionEntry>,
    key: PositionKey,
    info: PositionInfo,
)
    requires
        keys_unique(entries),
    ensures
        keys_unique(stored_positions(entries, key, info)),
        position_in(stored_positions(entries, key, info), key) == (if info.is_vacant() {
            PositionInfo::empty()
        } else {
            info
        }),
        forall|other: PositionKey|
            other != key ==> position_in(stored_positions(entries, key, info), other)
                == position_in(entries, other),
{
    let n = entries.len() as int;
    let i = position_index(entries, key, n);
    let after = stored_positions(entries, key, info);
    let m = after.len() as int;
    lemma_position_index(entries, key, n);
    // the key itself
    if i < n {
        if info.is_vacant() {
            assert forall|j: int| 0 <= j < m implies after[j].key != key by {
                if j < i {
                } else {
                    assert(after[j] == entries[j + 1]);
                }
            }
            lemma_position_index_is(after, key, m, m);
        } else {
            lemma_position_index_is(after, key, m, i);
        }
    } else {
        if !info.is_vacant() {
            lemma_position_index_is(after, key, m, n);
        } else {
            lemma_position_index_is(after, key, m, m);
        }
    }
    // every other key
    assert forall|other: PositionKey| other != key implies position_in(after, other)
        == position_in(entries, other) by {
        let k = position_index(entries, other, n);
        lemma_position_index(entries, other, n);
        if i < n {
            if info.is_vacant() {
                if k < n {
                    let k2 = if k < i {
                        k
                    } else {
                        k - 1
                    };
                    assert(after[k2] == entries[k]);
                    assert forall|j: int| 0 <= j < k2 implies after[j].key != other by {
                        if j < i {
                        } else {
                            assert(after[j] == entries[j + 1]);
                        }
                    }
                    lemma_position_index_is(after, other, m, k2);
                } else {
                    assert forall|j: int| 0 <= j < m implies after[j].key != other by {
                        if j < i {
                        } else {
                            assert(after[j] == entries[j + 1]);
                        }
                    }
                    lemma_position_index_is(after, other, m, m);
                }
            } else {
                lemma_position_index_is(after, other, m, k);
            }
        } else {
            if !info.is_vacant() {
                if k < n {
                    lemma_position_index_is(after, other, m, k);
                } else {
                    lemma_position_index_is(after, other, m, m);
                }
            }
        }
    }
    // uniqueness
    assert forall|a: int, b: int| 0 <= a < b < m implies (#[trigger] after[a]).key != (
    #[trigger] after[b]).key by {
        if i < n {
            if info.is_vacant() {
                let a0 = if a < i {
                    a
                } else {
                    a + 1
                };
                let b0 = if b < i {
                    b
                } else {
                    b + 1
                };
                assert(after[a] == entries[a0]);
                assert(after[b] == entries[b0]);
            } else {
                if a == i {
                    assert(entries[i].key == key);
                    assert(after[b] == entries[b]);
                } else if b == i {
                    assert(after[a] == entries[a]);
                } else {
                    assert(after[a] == entries[a]);
                    assert(after[b] == entries[b]);
                }
            }
        } else {
            if !info.is_vacant() {
                if b == n {
                    assert(after[a] == entries[a]);
                } else {
                    assert(after[a] == entries[a]);
                    assert(after[b] == entries[b]);
                }
            }
        }
    }
}

} // verus!
