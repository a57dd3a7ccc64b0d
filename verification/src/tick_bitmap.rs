//! The bitmap of initialized ticks: positions of ticks in 128-bit words,
//! masks, and the search for the next initialized tick within a word.

use vstd::prelude::*;
use crate::wide::lemma_div_rem_unique;

verus! {

/// Whether bit `i` of a word is set.
pub open spec fn bit_set(word: u128, i: int) -> bool {
    0 <= i < 128 && (word >> (i as u128)) & 1 == 1
}

/// The highest set bit of a word among the bits `0 ..= i`.
pub open spec fn highest_set_bit_at_or_below(word: u128, i: int) -> Option<u8>
    decreases i + 1,
{
    if i < 0 {
        None
    } else if bit_set(word, i) {
        Some(i as u8)
    } else {
        highest_set_bit_at_or_below(word, i - 1)
    }
}

/// The lowest set bit of a word among the bits `i ..= 127`.
pub open spec fn lowest_set_bit_at_or_above(word: u128, i: int) -> Option<u8>
    decreases 128 - i,
{
    if i >= 128 || i < 0 {
        None
    } else if bit_set(word, i) {
        Some(i as u8)
    } else {
        lowest_set_bit_at_or_above(word, i + 1)
    }
}

/// The position of a tick counted in units of the spacing, rounded
/// towards negative infinity.
pub open spec fn compressed_tick(tick: int, tick_spacing: int) -> int {
    tick / tick_spacing
}

/// The word of the bitmap that holds a compressed tick.
pub open spec fn word_position(compressed: int) -> int {
    compressed / 128
}

/// The bit of its word that stands for a compressed tick.
pub open spec fn bit_position(compressed: int) -> int {
    compressed % 128
}

/// The tick that a bit of a word stands for.
pub open spec fn position_tick(word_pos: int, bit: int, tick_spacing: int) -> int {
    (word_pos * 128 + bit) * tick_spacing
}

/// What `compute_next_tick_lte` returns.
pub open spec fn next_tick_lte_spec(word: u128, word_pos: i32, bit_pos: u8, tick_spacing: i32) -> (
    int,
    bool,
) {
    match highest_set_bit_at_or_below(word, bit_pos as int) {
        Some(bit) => (position_tick(word_pos as int, bit as int, tick_spacing as int), true),
        None => (position_tick(word_pos as int, 0, tick_spacing as int), false),
    }
}

/// What `compute_next_tick_gt` returns.
pub open spec fn next_tick_gt_spec(word: u128, word_pos: i32, bit_pos: u8, tick_spacing: i32) -> (
    int,
    bool,
) {
    match lowest_set_bit_at_or_above(word, bit_pos as int) {
        Some(bit) => (position_tick(word_pos as int, bit as int, tick_spacing as int), true),
        None => (position_tick(word_pos as int, 127, tick_spacing as int), false),
    }
}

/// The highest set bit at or below `i` is set, lies at or below `i`, and
/// no bit between it and `i` is set; there is none exactly where no bit
/// at or below `i` is set.
pub proof fn lemma_highest_set_bit(word: u128, i: int)
    requires
        i < 128,
    ensures
        match highest_set_bit_at_or_below(word, i) {
            Some(b) => 0 <= b <= i && bit_set(word, b as int) && forall|j: int|
                b < j <= i ==> !bit_set(word, j),
            None => forall|j: int| 0 <= j <= i ==> !bit_set(word, j),
        },
    decreases i + 1,
{
    if i >= 0 && !bit_set(word, i) {
        lemma_highest_set_bit(word, i - 1);
    }
}

/// The lowest set bit at or above `i` is set, lies at or above `i`, and
/// no bit between `i` and it is set; there is none exactly where no bit
/// at or above `i` is set.
pub proof fn lemma_lowest_set_bit(word: u128, i: int)
    requires
        0 <= i,
    ensures
        match lowest_set_bit_at_or_above(word, i) {
            Some(b) => i <= b < 128 && bit_set(word, b as int) && forall|j: int|
                i <= j < b ==> !bit_set(word, j),
            None => forall|j: int| i <= j < 128 ==> !bit_set(word, j),
        },
    decreases 128 - i,
{
    if i < 128 && !bit_set(word, i) {
        lemma_lowest_set_bit(word, i + 1);
    }
}

/// Two words that agree on the bits `0 ..= i` have the same highest set
/// bit there.
pub proof fn lemma_highest_set_bit_agrees(a: u128, b: u128, i: int)
    requires
        i < 128,
        forall|j: int| 0 <= j <= i ==> bit_set(a, j) == bit_set(b, j),
    ensures
        highest_set_bit_at_or_below(a, i) == highest_set_bit_at_or_below(b, i),
    decreases i + 1,
{
    if i >= 0 && !bit_set(a, i) {
        lemma_highest_set_bit_agrees(a, b, i - 1);
    }
}

/// Two words that agree on the bits `i ..= 127` have the same lowest set
/// bit there.
pub proof fn lemma_lowest_set_bit_agrees(a: u128, b: u128, i: int)
    requires
        0 <= i,
        forall|j: int| i <= j < 128 ==> bit_set(a, j) == bit_set(b, j),
    ensures
        lowest_set_bit_at_or_above(a, i) == lowest_set_bit_at_or_above(b, i),
    decreases 128 - i,
{
    if i < 128 && !bit_set(a, i) {
        lemma_lowest_set_bit_agrees(a, b, i + 1);
    }
}

/// A word whose bits above `i` are all clear has its highest set bit at
/// or below `i`.
pub proof fn lemma_highest_set_bit_skips_clear(word: u128, i: int, top: int)
    requires
        -1 <= i <= top < 128,
        forall|j: int| i < j <= top ==> !bit_set(word, j),
    ensures
        highest_set_bit_at_or_below(word, top) == highest_set_bit_at_or_below(word, i),
    decreases top - i,
{
    if i < top {
        lemma_highest_set_bit_skips_clear(word, i, top - 1);
    }
}

/// A word whose bits below `i` are all clear has its lowest set bit at or
/// above `i`.
pub proof fn lemma_lowest_set_bit_skips_clear(word: u128, i: int, bottom: int)
    requires
        0 <= bottom <= i <= 128,
        forall|j: int| bottom <= j < i ==> !bit_set(word, j),
    ensures
        lowest_set_bit_at_or_above(word, bottom) == lowest_set_bit_at_or_above(word, i),
    decreases i - bottom,
{
    if bottom < i {
        lemma_lowest_set_bit_skips_clear(word, i, bottom + 1);
    }
}

/// Bit by bit, what the bitwise operations of this module do.
pub proof fn lemma_bit_operations(a: u128, b: u128, i: u128)
    by (bit_vector)
    requires
        i < 128,
    ensures
        ((a & b) >> i) & 1 == 1 <==> ((a >> i) & 1 == 1 && (b >> i) & 1 == 1),
        ((a ^ b) >> i) & 1 == 1 <==> (((a >> i) & 1 == 1) != ((b >> i) & 1 == 1)),
        (0u128 >> i) & 1 == 0,
{
}

/// Bit by bit, the masks of this module and the word of a single bit.
pub proof fn lemma_mask_bits(p: u128, i: u128)
    by (bit_vector)
    requires
        p < 128,
        i < 128,
    ensures
        ((0xffff_ffff_ffff_ffff_ffff_ffff_ffff_ffffu128 >> ((127 - p) as u128)) >> i) & 1 == 1 <==> i
            <= p,
        ((0xffff_ffff_ffff_ffff_ffff_ffff_ffff_ffffu128 << p) >> i) & 1 == 1 <==> i >= p,
        ((1u128 << p) >> i) & 1 == 1 <==> i == p,
{
}

/// Where the bits from `n` up are clear, nothing is left of the word
/// above bit `n`.
proof fn lemma_high_bits_clear(word: u128, n: int)
    requires
        0 <= n < 128,
        forall|j: int| n <= j < 128 ==> !bit_set(word, j),
    ensures
        word >> (n as u128) == 0,
    decreases 128 - n,
{
    let shift = n as u128;
    assert(!bit_set(word, n));
    if n == 127 {
        assert(word >> 127 == 0) by (bit_vector)
            requires
                (word >> 127) & 1 != 1,
        ;
    } else {
        lemma_high_bits_clear(word, n + 1);
        let above = (n + 1) as u128;
        assert(word >> shift == 0) by (bit_vector)
            requires
                shift < 127,
                above == shift + 1,
                word >> above == 0,
                (word >> shift) & 1 != 1,
        ;
    }
}

/// A word with no set bit is zero.
pub proof fn lemma_no_bit_is_zero(word: u128)
    requires
        forall|j: int| 0 <= j < 128 ==> !bit_set(word, j),
    ensures
        word == 0,
{
    lemma_high_bits_clear(word, 0);
    assert(word == 0) by (bit_vector)
        requires
            word >> 0 == 0,
    ;
}

/// Whether bit `i` of a word is set.
pub fn test_bit(word: u128, i: u8) -> (r: bool)
    requires
        i < 128,
    ensures
        r == bit_set(word, i as int),
{
    (word >> (i as u128)) & 1 == 1
}

/// The quotient of a division rounded towards negative infinity.
pub fn floor_div(a: i32, b: i32) -> (q: i32)
    requires
        b > 0,
    ensures
        q as int == a as int / b as int,
{
    if a >= 0 {
        a / b
    } else {
        let size: i64 = -(a as i64);
        let up: i64 = (size + (b as i64) - 1) / (b as i64);
        proof {
            let n = size as int + b as int - 1;
            let rest = n % (b as int);
            vstd::arithmetic::div_mod::lemma_fundamental_div_mod(n, b as int);
            vstd::arithmetic::div_mod::lemma_mod_bound(n, b as int);
            assert(a as int == (-(up as int)) * b as int + (b as int - 1 - rest))
                by (nonlinear_arith)
                requires
                    n == b as int * (n / (b as int)) + rest,
                    up as int == n / (b as int),
                    n == -(a as int) + b as int - 1,
            ;
            lemma_div_rem_unique(a as int, b as int, -(up as int), b as int - 1 - rest);
            assert(up as int <= n) by (nonlinear_arith)
                requires
                    n == b as int * (up as int) + rest,
                    rest >= 0,
                    b as int >= 1,
                    n >= 0,
            ;
            assert(up as int >= 0) by (nonlinear_arith)
                requires
                    n == b as int * (up as int) + rest,
                    rest < b as int,
                    b as int >= 1,
                    n >= 0,
            ;
            assert(up as int <= size as int) by (nonlinear_arith)
                requires
                    n == b as int * (up as int) + rest,
                    n == size as int + b as int - 1,
                    rest >= 0,
                    b as int >= 1,
                    up as int >= 0,
                    size as int >= 1,
            ;
        }
        (-up) as i32
    }
}

/// The word and the bit that stand for a tick in the bitmap. A tick off
/// the spacing shares the bit of the next tick on the spacing below it.
pub fn tick_to_bitmap_position(tick: i32, tick_spacing: i32) -> (r: (i32, u8))
    requires
        tick_spacing > 0,
    ensures
        r.0 as int == word_position(compressed_tick(tick as int, tick_spacing as int)),
        r.1 as int == bit_position(compressed_tick(tick as int, tick_spacing as int)),
        r.1 < 128,
{
    let compressed = floor_div(tick, tick_spacing);
    let word_pos = floor_div(compressed, 128);
    let bit_pos = (compressed as i64 - (word_pos as i64) * 128) as u8;
    (word_pos, bit_pos)
}

/// The tick that a bit of a word of the bitmap stands for.
pub fn bitmap_position_to_tick(word_pos: i32, bit: i32, tick_spacing: i32) -> (r: i32)
    requires
        i32::MIN <= position_tick(word_pos as int, bit as int, tick_spacing as int) <= i32::MAX,
    ensures
        r as int == position_tick(word_pos as int, bit as int, tick_spacing as int),
{
    let compressed: i64 = (word_pos as i64) * 128 + (bit as i64);
    (compressed * (tick_spacing as i64)) as i32
}

/// The word with exactly the bits `0 ..= bit_pos` set.
pub fn create_mask_at_or_below(bit_pos: u8) -> (r: u128)
    requires
        bit_pos < 128,
    ensures
        forall|i: int| 0 <= i < 128 ==> (bit_set(r, i) <==> i <= bit_pos),
{
    let mask = u128::MAX >> (127 - bit_pos);
    proof {
        assert forall|i: int| 0 <= i < 128 implies (bit_set(mask, i) <==> i <= bit_pos) by {
            lemma_mask_bits(bit_pos as u128, i as u128);
        }
    }
    mask
}

/// The word with exactly the bits `bit_pos ..= 127` set.
pub fn create_mask_at_or_above(bit_pos: u8) -> (r: u128)
    requires
        bit_pos < 128,
    ensures
        forall|i: int| 0 <= i < 128 ==> (bit_set(r, i) <==> i >= bit_pos),
{
    let mask = u128::MAX << bit_pos;
    proof {
        assert forall|i: int| 0 <= i < 128 implies (bit_set(mask, i) <==> i >= bit_pos) by {
            lemma_mask_bits(bit_pos as u128, i as u128);
        }
    }
    mask
}

/// The highest set bit of a word; none for zero.
pub fn find_most_significant_bit(word: u128) -> (r: Option<u8>)
    ensures
        r == highest_set_bit_at_or_below(word, 127),
        r is None <==> word == 0,
{
    let mut i: u8 = 127;
    while i > 0 && !test_bit(word, i)
        invariant
            i < 128,
            forall|j: int| i < j < 128 ==> !bit_set(word, j),
        decreases i,
    {
        i = i - 1;
    }
    proof {
        lemma_highest_set_bit_skips_clear(word, i as int, 127);
        lemma_highest_set_bit(word, 127);
        assert(word == 0 ==> !bit_set(word, i as int)) by {
            lemma_bit_operations(0, 0, i as u128);
        }
        if !bit_set(word, i as int) && i == 0 {
            lemma_no_bit_is_zero(word);
        }
    }
    if test_bit(word, i) {
        Some(i)
    } else {
        None
    }
}

/// The lowest set bit of a word; none for zero.
pub fn find_least_significant_bit(word: u128) -> (r: Option<u8>)
    ensures
        r == lowest_set_bit_at_or_above(word, 0),
        r is None <==> word == 0,
{
    let mut i: u8 = 0;
    while i < 127 && !test_bit(word, i)
        invariant
            i < 128,
            forall|j: int| 0 <= j < i ==> !bit_set(word, j),
        decreases 127 - i,
    {
        i = i + 1;
    }
    proof {
        lemma_lowest_set_bit_skips_clear(word, i as int, 0);
        lemma_lowest_set_bit(word, 0);
        assert(word == 0 ==> !bit_set(word, i as int)) by {
            lemma_bit_operations(0, 0, i as u128);
        }
        if !bit_set(word, i as int) && i == 127 {
            lemma_no_bit_is_zero(word);
        }
    }
    if test_bit(word, i) {
        Some(i)
    } else {
        None
    }
}

/// The next initialized tick at or below the bit `bit_pos` of a word,
/// with `true`; where the word holds none, the tick of the lowest bit of
/// the word, with `false`.
pub fn compute_next_tick_lte(word: u128, word_pos: i32, bit_pos: u8, tick_spacing: i32) -> (r: (
    i32,
    bool,
))
    requires
        bit_pos < 128,
        i32::MIN <= position_tick(word_pos as int, 0, tick_spacing as int) <= i32::MAX,
        i32::MIN <= position_tick(word_pos as int, 127, tick_spacing as int) <= i32::MAX,
    ensures
        (r.0 as int, r.1) == next_tick_lte_spec(word, word_pos, bit_pos, tick_spacing),
{
    let mask = create_mask_at_or_below(bit_pos);
    let masked = word & mask;
    proof {
        assert forall|j: int| 0 <= j < 128 implies (bit_set(masked, j) <==> bit_set(word, j) && j
            <= bit_pos) by {
            lemma_bit_operations(word, mask, j as u128);
            assert(bit_set(mask, j) <==> j <= bit_pos);
        }
        lemma_highest_set_bit_skips_clear(masked, bit_pos as int, 127);
        lemma_highest_set_bit_agrees(masked, word, bit_pos as int);
        lemma_highest_set_bit(word, bit_pos as int);
    }
    match find_most_significant_bit(masked) {
        Some(msb) => {
            proof {
                lemma_tick_between(word_pos as int, msb as int, tick_spacing as int);
            }
            let tick = bitmap_position_to_tick(word_pos, msb as i32, tick_spacing);
            (tick, true)
        },
        None => {
            let tick = bitmap_position_to_tick(word_pos, 0, tick_spacing);
            (tick, false)
        },
    }
}

/// The next initialized tick at or above the bit `bit_pos` of a word,
/// with `true`; where the word holds none, the tick of the highest bit
/// of the word, with `false`.
pub fn compute_next_tick_gt(word: u128, word_pos: i32, bit_pos: u8, tick_spacing: i32) -> (r: (
    i32,
    bool,
))
    requires
        bit_pos < 128,
        i32::MIN <= position_tick(word_pos as int, 0, tick_spacing as int) <= i32::MAX,
        i32::MIN <= position_tick(word_pos as int, 127, tick_spacing as int) <= i32::MAX,
    ensures
        (r.0 as int, r.1) == next_tick_gt_spec(word, word_pos, bit_pos, tick_spacing),
{
    let mask = create_mask_at_or_above(bit_pos);
    let masked = word & mask;
    proof {
        assert forall|j: int| 0 <= j < 128 implies (bit_set(masked, j) <==> bit_set(word, j) && j
            >= bit_pos) by {
            lemma_bit_operations(word, mask, j as u128);
            assert(bit_set(mask, j) <==> j >= bit_pos);
        }
        lemma_lowest_set_bit_skips_clear(masked, bit_pos as int, 0);
        lemma_lowest_set_bit_agrees(masked, word, bit_pos as int);
        lemma_lowest_set_bit(word, bit_pos as int);
    }
    match find_least_significant_bit(masked) {
        Some(lsb) => {
            proof {
                lemma_tick_between(word_pos as int, lsb as int, tick_spacing as int);
            }
            let tick = bitmap_position_to_tick(word_pos, lsb as i32, tick_spacing);
            (tick, true)
        },
        None => {
            let tick = bitmap_position_to_tick(word_pos, 127, tick_spacing);
            (tick, false)
        },
    }
}

/// The tick of a bit of a word lies between the ticks of the word's
/// lowest and highest bits.
pub proof fn lemma_tick_between(word_pos: int, bit: int, tick_spacing: int)
    by (nonlinear_arith)
    requires
        0 <= bit <= 127,
    ensures
        tick_spacing >= 0 ==> position_tick(word_pos, 0, tick_spacing) <= position_tick(
            word_pos,
            bit,
            tick_spacing,
        ) <= position_tick(word_pos, 127, tick_spacing),
        tick_spacing <= 0 ==> position_tick(word_pos, 127, tick_spacing) <= position_tick(
            word_pos,
            bit,
            tick_spacing,
        ) <= position_tick(word_pos, 0, tick_spacing),
{
}

} // verus!
