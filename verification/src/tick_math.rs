//! The map between tick indices and square-root prices.
//!
//! `get_sqrt_ratio_at_tick` evaluates `sqrt(1.0001^tick) * 2^96` by
//! multiplying 128-bit fixed-point factors, one for each binary digit of
//! `|tick|`. The lemmas of this module show that the map is strictly
//! increasing over the whole tick domain, which is what makes the search
//! in `get_tick_at_sqrt_ratio` an exact inverse.

use vstd::prelude::*;
use crate::constants::{MAX_SQRT_RATIO, MAX_TICK, MIN_SQRT_RATIO, MIN_TICK};
use crate::error::PoolError;
use crate::wide::{lemma_div_rem_unique, limb, wide_bound, Wide};

verus! {

/// The factor `sqrt(1.0001^-(2^k))` in Q128.128, for the binary digit `k`
/// of a tick's magnitude. Past the last digit the factor is one.
pub open spec fn ratio_factor_spec(k: int) -> int {
    if k == 0 {
        0xfffcb933bd6fad37aa2d162d1a594001
    } else if k == 1 {
        0xfff97272373d413259a46990580e213a
    } else if k == 2 {
        0xfff2e50f5f656932ef12357cf3c7fdcc
    } else if k == 3 {
        0xffe5caca7e10e4e61c3624eaa0941cd0
    } else if k == 4 {
        0xffcb9843d60f6159c9db58835c926644
    } else if k == 5 {
        0xff973b41fa98c081472e6896dfb254c0
    } else if k == 6 {
        0xff2ea16466c96a3843ec78b326b52861
    } else if k == 7 {
        0xfe5dee046a99a2a811c461f1969c3053
    } else if k == 8 {
        0xfcbe86c7900a88aedcffc83b479aa3a4
    } else if k == 9 {
        0xf987a7253ac413176f2b074cf7815e54
    } else if k == 10 {
        0xf3392b0822b70005940c7a398e4b70f3
    } else if k == 11 {
        0xe7159475a2c29b7443b29c7fa6e889d9
    } else if k == 12 {
        0xd097f3bdfd2022b8845ad8f792aa5825
    } else if k == 13 {
        0xa9f746462d870fdf8a65dc1f90e061e5
    } else if k == 14 {
        0x70d869a156d2a1b890bb3df62baf32f7
    } else if k == 15 {
        0x31be135f97d08fd981231505542fcfa6
    } else if k == 16 {
        0x9aa508b5b7a84e1c677de54f3e99bc9
    } else if k == 17 {
        0x5d6af8dedb81196699c329225ee604
    } else if k == 18 {
        0x2216e584f5fa1ea926041bedfe98
    } else {
        limb()
    }
}

/// The accumulator after the digits `0 .. k` were all ones.
pub open spec fn all_ones_ratio(k: int) -> int {
    if k == 0 {
        limb()
    } else if k == 1 {
        0xfffcb933bd6fad37aa2d162d1a594001
    } else if k == 2 {
        0xfff62bbb6d458ec3c792106391dc463e
    } else if k == 3 {
        0xffe9114b9cf28d394c3203dbd44eb085
    } else if k == 4 {
        0xffcede6f1d8be90b88f350424e84e5b7
    } else if k == 5 {
        0xff9a80c1ada7480b1daa871d7c4d9b36
    } else if k == 6 {
        0xff31e58d5a53c84fc142023ec1b1dfd7
    } else if k == 7 {
        0xfe612f8183b1ea21b72fb71b03542ae4
    } else if k == 8 {
        0xfcc1c2f380536bc67ee1ff564d1080b2
    } else if k == 9 {
        0xf98ad8c8d7ecc0a3f8a42c9724cffb6a
    } else if k == 10 {
        0xf33c480189b415235ad119427d89a1f6
    } else if k == 11 {
        0xe71889a85903fd03cb7cc40bdf371a9c
    } else if k == 12 {
        0xd09a9f3e93db5812d4820c2fc67a3e3a
    } else if k == 13 {
        0xa9f973345b9e647c4163af91d00b255f
    } else if k == 14 {
        0x70d9db6485f04ddd567e07c7b89f8e7c
    } else if k == 15 {
        0x31beb65d91af63ae717a760be3b374dc
    } else if k == 16 {
        0x9aa7036fd2355429c4030b032e1cf71
    } else if k == 17 {
        0x5d6c2af97aaa8de0e5a6bf23f5e547
    } else if k == 18 {
        0x221755388a6658e120f4a3c503cf
    } else {
        0x48a25e36942a4fc0c1f899f
    }
}

/// A lower bound on the distance between the accumulators of two
/// neighbouring ticks once the digits below `k` are consumed. Each bound
/// survives the factor of its digit: see `lemma_gap_step`.
pub open spec fn gap_floor(k: int) -> int {
    if k == 0 {
        0xe19c00000000000000000000000
    } else if k == 1 {
        0xe19900000000000000000000000
    } else if k == 2 {
        0xe19300000000000000000000000
    } else if k == 3 {
        0xe18700000000000000000000000
    } else if k == 4 {
        0xe16f00000000000000000000000
    } else if k == 5 {
        0xe14000000000000000000000000
    } else if k == 6 {
        0xe0e300000000000000000000000
    } else if k == 7 {
        0xe02b00000000000000000000000
    } else if k == 8 {
        0xdebc00000000000000000000000
    } else if k == 9 {
        0xdbe600000000000000000000000
    } else if k == 10 {
        0xd65700000000000000000000000
    } else if k == 11 {
        0xcba400000000000000000000000
    } else if k == 12 {
        0xb7d200000000000000000000000
    } else if k == 13 {
        0x95c700000000000000000000000
    } else if k == 14 {
        0x637100000000000000000000000
    } else if k == 15 {
        0x2bd580000000000000000000000
    } else if k == 16 {
        0x88460000000000000000000000
    } else if k == 17 {
        0x5251800000000000000000000
    } else if k == 18 {
        0x1e0a0000000000000000000
    } else {
        0x400000000000000000
    }
}

/// The largest value that `|tick| / 2^k` takes in the tick domain.
pub open spec fn tick_cap(k: int) -> int {
    if k == 0 {
        0x6c4f4
    } else if k == 1 {
        0x3627a
    } else if k == 2 {
        0x1b13d
    } else if k == 3 {
        0xd89e
    } else if k == 4 {
        0x6c4f
    } else if k == 5 {
        0x3627
    } else if k == 6 {
        0x1b13
    } else if k == 7 {
        0xd89
    } else if k == 8 {
        0x6c4
    } else if k == 9 {
        0x362
    } else if k == 10 {
        0x1b1
    } else if k == 11 {
        0xd8
    } else if k == 12 {
        0x6c
    } else if k == 13 {
        0x36
    } else if k == 14 {
        0x1b
    } else if k == 15 {
        0xd
    } else if k == 16 {
        0x6
    } else if k == 17 {
        0x3
    } else if k == 18 {
        0x1
    } else {
        0
    }
}

/// One step of the evaluation: the accumulator times the factor of digit
/// `k`, with the 128 fractional bits of the product dropped.
pub open spec fn scale_ratio(acc: int, k: int) -> int {
    (acc * ratio_factor_spec(k)) / limb()
}

/// The accumulator after the digits of `m` are consumed, lowest first,
/// where the lowest digit of `m` is digit `k` of the tick.
pub open spec fn ratio_from(acc: int, m: nat, k: int) -> int
    decreases m,
{
    if m == 0 {
        acc
    } else {
        ratio_from(
            if m % 2 == 1 {
                scale_ratio(acc, k)
            } else {
                acc
            },
            m / 2,
            k + 1,
        )
    }
}

/// `sqrt(1.0001^-n)` in Q128.128, as the evaluation computes it.
pub open spec fn ratio_q128(n: nat) -> int {
    ratio_from(limb(), n, 0)
}

/// The magnitude of a tick.
pub open spec fn tick_magnitude(t: int) -> nat {
    if t < 0 {
        (-t) as nat
    } else {
        t as nat
    }
}

/// The square-root price of a tick in Q64.96, before it is clamped: the
/// Q128.128 ratio of the magnitude, inverted for a positive tick, less
/// its lowest 32 bits.
pub open spec fn raw_sqrt_ratio(t: int) -> int {
    let r = ratio_q128(tick_magnitude(t));
    if t > 0 {
        ((wide_bound() - 1) / r) / 0x1_0000_0000
    } else {
        r / 0x1_0000_0000
    }
}

/// What `get_sqrt_ratio_at_tick` returns.
pub open spec fn sqrt_ratio_at_tick_spec(t: int) -> int {
    let raw = raw_sqrt_ratio(t);
    let capped = if raw > u128::MAX {
        u128::MAX as int
    } else {
        raw
    };
    if capped < MIN_SQRT_RATIO {
        MIN_SQRT_RATIO as int
    } else if capped > MAX_SQRT_RATIO {
        MAX_SQRT_RATIO as int
    } else {
        capped
    }
}

/// The largest tick in `[MIN_TICK, t]` whose square-root price is at most
/// `p`, or `MIN_TICK` where there is none.
pub open spec fn largest_tick_at_or_below(p: int, t: int) -> int
    decreases t - MIN_TICK,
{
    if t <= MIN_TICK {
        MIN_TICK as int
    } else if sqrt_ratio_at_tick_spec(t) <= p {
        t
    } else {
        largest_tick_at_or_below(p, t - 1)
    }
}

/// What `get_tick_at_sqrt_ratio` returns.
pub open spec fn tick_at_sqrt_ratio_spec(p: u128) -> Result<i32, PoolError> {
    if p < MIN_SQRT_RATIO || p >= MAX_SQRT_RATIO {
        Err(PoolError::PriceOutOfRange)
    } else {
        Ok(largest_tick_at_or_below(p as int, MAX_TICK as int) as i32)
    }
}

/// Each gap bound survives the factor of its digit.
pub proof fn lemma_gap_step(k: int)
    requires
        0 <= k,
    ensures
        gap_floor(k + 1) <= gap_floor(k),
        gap_floor(k + 1) <= (gap_floor(k) * ratio_factor_spec(k)) / limb(),
        gap_floor(k) >= 0x400000000000000000,
{
    if k == 0 {
        assert(gap_floor(1) <= gap_floor(0) * ratio_factor_spec(0) / limb());
    } else if k == 1 {
        assert(gap_floor(2) <= gap_floor(1) * ratio_factor_spec(1) / limb());
    } else if k == 2 {
        assert(gap_floor(3) <= gap_floor(2) * ratio_factor_spec(2) / limb());
    } else if k == 3 {
        assert(gap_floor(4) <= gap_floor(3) * ratio_factor_spec(3) / limb());
    } else if k == 4 {
        assert(gap_floor(5) <= gap_floor(4) * ratio_factor_spec(4) / limb());
    } else if k == 5 {
        assert(gap_floor(6) <= gap_floor(5) * ratio_factor_spec(5) / limb());
    } else if k == 6 {
        assert(gap_floor(7) <= gap_floor(6) * ratio_factor_spec(6) / limb());
    } else if k == 7 {
        assert(gap_floor(8) <= gap_floor(7) * ratio_factor_spec(7) / limb());
    } else if k == 8 {
        assert(gap_floor(9) <= gap_floor(8) * ratio_factor_spec(8) / limb());
    } else if k == 9 {
        assert(gap_floor(10) <= gap_floor(9) * ratio_factor_spec(9) / limb());
    } else if k == 10 {
        assert(gap_floor(11) <= gap_floor(10) * ratio_factor_spec(10) / limb());
    } else if k == 11 {
        assert(gap_floor(12) <= gap_floor(11) * ratio_factor_spec(11) / limb());
    } else if k == 12 {
        assert(gap_floor(13) <= gap_floor(12) * ratio_factor_spec(12) / limb());
    } else if k == 13 {
        assert(gap_floor(14) <= gap_floor(13) * ratio_factor_spec(13) / limb());
    } else if k == 14 {
        assert(gap_floor(15) <= gap_floor(14) * ratio_factor_spec(14) / limb());
    } else if k == 15 {
        assert(gap_floor(16) <= gap_floor(15) * ratio_factor_spec(15) / limb());
    } else if k == 16 {
        assert(gap_floor(17) <= gap_floor(16) * ratio_factor_spec(16) / limb());
    } else if k == 17 {
        assert(gap_floor(18) <= gap_floor(17) * ratio_factor_spec(17) / limb());
    } else if k == 18 {
        assert(gap_floor(19) <= gap_floor(18) * ratio_factor_spec(18) / limb());
    }

}

/// The all-ones accumulators follow one another.
pub proof fn lemma_all_ones_step(k: int)
    requires
        0 <= k <= 18,
    ensures
        scale_ratio(all_ones_ratio(k), k) == all_ones_ratio(k + 1),
{
    if k == 0 {
        assert(all_ones_ratio(0) * ratio_factor_spec(0) / limb() == all_ones_ratio(1));
    } else if k == 1 {
        assert(all_ones_ratio(1) * ratio_factor_spec(1) / limb() == all_ones_ratio(2));
    } else if k == 2 {
        assert(all_ones_ratio(2) * ratio_factor_spec(2) / limb() == all_ones_ratio(3));
    } else if k == 3 {
        assert(all_ones_ratio(3) * ratio_factor_spec(3) / limb() == all_ones_ratio(4));
    } else if k == 4 {
        assert(all_ones_ratio(4) * ratio_factor_spec(4) / limb() == all_ones_ratio(5));
    } else if k == 5 {
        assert(all_ones_ratio(5) * ratio_factor_spec(5) / limb() == all_ones_ratio(6));
    } else if k == 6 {
        assert(all_ones_ratio(6) * ratio_factor_spec(6) / limb() == all_ones_ratio(7));
    } else if k == 7 {
        assert(all_ones_ratio(7) * ratio_factor_spec(7) / limb() == all_ones_ratio(8));
    } else if k == 8 {
        assert(all_ones_ratio(8) * ratio_factor_spec(8) / limb() == all_ones_ratio(9));
    } else if k == 9 {
        assert(all_ones_ratio(9) * ratio_factor_spec(9) / limb() == all_ones_ratio(10));
    } else if k == 10 {
        assert(all_ones_ratio(10) * ratio_factor_spec(10) / limb() == all_ones_ratio(11));
    } else if k == 11 {
        assert(all_ones_ratio(11) * ratio_factor_spec(11) / limb() == all_ones_ratio(12));
    } else if k == 12 {
        assert(all_ones_ratio(12) * ratio_factor_spec(12) / limb() == all_ones_ratio(13));
    } else if k == 13 {
        assert(all_ones_ratio(13) * ratio_factor_spec(13) / limb() == all_ones_ratio(14));
    } else if k == 14 {
        assert(all_ones_ratio(14) * ratio_factor_spec(14) / limb() == all_ones_ratio(15));
    } else if k == 15 {
        assert(all_ones_ratio(15) * ratio_factor_spec(15) / limb() == all_ones_ratio(16));
    } else if k == 16 {
        assert(all_ones_ratio(16) * ratio_factor_spec(16) / limb() == all_ones_ratio(17));
    } else if k == 17 {
        assert(all_ones_ratio(17) * ratio_factor_spec(17) / limb() == all_ones_ratio(18));
    } else if k == 18 {
        assert(all_ones_ratio(18) * ratio_factor_spec(18) / limb() == all_ones_ratio(19));
    }

}

/// Where a carry runs into digit `k`, the accumulators part by more than
/// the gap bound of the next digit.
pub proof fn lemma_all_ones_gap(k: int)
    requires
        0 <= k <= 18,
    ensures
        all_ones_ratio(k) - scale_ratio(limb(), k) >= gap_floor(k + 1),
        scale_ratio(limb(), k) == ratio_factor_spec(k),
        scale_ratio(limb(), k) >= 0,
{
    if k == 0 {
        assert(all_ones_ratio(0) - ratio_factor_spec(0) >= gap_floor(1));
    } else if k == 1 {
        assert(all_ones_ratio(1) - ratio_factor_spec(1) >= gap_floor(2));
    } else if k == 2 {
        assert(all_ones_ratio(2) - ratio_factor_spec(2) >= gap_floor(3));
    } else if k == 3 {
        assert(all_ones_ratio(3) - ratio_factor_spec(3) >= gap_floor(4));
    } else if k == 4 {
        assert(all_ones_ratio(4) - ratio_factor_spec(4) >= gap_floor(5));
    } else if k == 5 {
        assert(all_ones_ratio(5) - ratio_factor_spec(5) >= gap_floor(6));
    } else if k == 6 {
        assert(all_ones_ratio(6) - ratio_factor_spec(6) >= gap_floor(7));
    } else if k == 7 {
        assert(all_ones_ratio(7) - ratio_factor_spec(7) >= gap_floor(8));
    } else if k == 8 {
        assert(all_ones_ratio(8) - ratio_factor_spec(8) >= gap_floor(9));
    } else if k == 9 {
        assert(all_ones_ratio(9) - ratio_factor_spec(9) >= gap_floor(10));
    } else if k == 10 {
        assert(all_ones_ratio(10) - ratio_factor_spec(10) >= gap_floor(11));
    } else if k == 11 {
        assert(all_ones_ratio(11) - ratio_factor_spec(11) >= gap_floor(12));
    } else if k == 12 {
        assert(all_ones_ratio(12) - ratio_factor_spec(12) >= gap_floor(13));
    } else if k == 13 {
        assert(all_ones_ratio(13) - ratio_factor_spec(13) >= gap_floor(14));
    } else if k == 14 {
        assert(all_ones_ratio(14) - ratio_factor_spec(14) >= gap_floor(15));
    } else if k == 15 {
        assert(all_ones_ratio(15) - ratio_factor_spec(15) >= gap_floor(16));
    } else if k == 16 {
        assert(all_ones_ratio(16) - ratio_factor_spec(16) >= gap_floor(17));
    } else if k == 17 {
        assert(all_ones_ratio(17) - ratio_factor_spec(17) >= gap_floor(18));
    } else if k == 18 {
        assert(all_ones_ratio(18) - ratio_factor_spec(18) >= gap_floor(19));
    }

}

/// Scaling keeps the order of two accumulators, and a share of their
/// distance.
pub proof fn lemma_scale_keeps_gap(a: int, b: int, e: int, k: int)
    requires
        0 <= k,
        0 <= b,
        0 <= e,
        a - b >= e,
    ensures
        scale_ratio(a, k) - scale_ratio(b, k) >= (e * ratio_factor_spec(k)) / limb(),
        scale_ratio(b, k) >= 0,
{
    let c = ratio_factor_spec(k);
    assert(c > 0);
    assert(a * c >= b * c + e * c && b * c >= 0 && e * c >= 0) by (nonlinear_arith)
        requires
            a - b >= e,
            b >= 0,
            e >= 0,
            c > 0,
    ;
}

/// Two accumulators that are apart by the gap bound of digit `k` stay
/// apart by the last bound, whatever digits follow.
pub proof fn lemma_same_digits_keep_gap(a: int, b: int, m: nat, k: int)
    requires
        0 <= k,
        0 <= b,
        a - b >= gap_floor(k),
    ensures
        ratio_from(a, m, k) - ratio_from(b, m, k) >= 0x400000000000000000,
        ratio_from(b, m, k) >= 0,
    decreases m,
{
    lemma_gap_step(k);
    if m != 0 {
        if m % 2 == 1 {
            lemma_scale_keeps_gap(a, b, gap_floor(k), k);
            lemma_same_digits_keep_gap(scale_ratio(a, k), scale_ratio(b, k), m / 2, k + 1);
        } else {
            lemma_same_digits_keep_gap(a, b, m / 2, k + 1);
        }
    }
}

/// The carry chain: a magnitude that ends in `k` ones, against its
/// successor, which ends in `k` zeros.
proof fn lemma_carry_chain(m: nat, k: int)
    requires
        0 <= k,
        m + 1 <= tick_cap(k),
    ensures
        ratio_from(all_ones_ratio(k), m, k) - ratio_from(limb(), m + 1, k) >= 0x400000000000000000,
        ratio_from(limb(), m + 1, k) >= 0,
    decreases m,
{
    assert(k <= 18);
    assert(((m + 1) / 2) as int <= tick_cap(k + 1));
    if m % 2 == 0 {
        lemma_all_ones_gap(k);
        let succ = (m + 1) as nat;
        assert(succ % 2 == 1 && succ / 2 == m / 2);
        assert(ratio_from(limb(), succ, k) == ratio_from(scale_ratio(limb(), k), m / 2, k + 1));
        assert(ratio_from(all_ones_ratio(k), m, k) == ratio_from(all_ones_ratio(k), m / 2, k + 1));
        lemma_same_digits_keep_gap(all_ones_ratio(k), scale_ratio(limb(), k), m / 2, k + 1);
    } else {
        lemma_all_ones_step(k);
        let succ = (m + 1) as nat;
        assert(succ % 2 == 0 && succ / 2 == m / 2 + 1);
        assert(ratio_from(limb(), succ, k) == ratio_from(limb(), succ / 2, k + 1));
        lemma_carry_chain(m / 2, k + 1);
    }
}

/// The Q128.128 ratios of neighbouring magnitudes are apart by at least
/// 2^70.
pub proof fn lemma_ratio_adjacent(n: nat)
    requires
        n + 1 <= MAX_TICK,
    ensures
        ratio_q128(n) - ratio_q128((n + 1) as nat) >= 0x400000000000000000,
{
    lemma_carry_chain(n, 0);
}

/// The Q128.128 ratio of the largest magnitude.
pub proof fn lemma_ratio_at_max()
    ensures
        ratio_q128(MAX_TICK as nat) == 0x100013b504ea15d2798b43080,
{
    reveal_with_fuel(ratio_from, 2);
    assert(ratio_from(0x7828221c770785fa09a96f669aeaa, 1, 18) == 0x100013b504ea15d2798b43080) by {
        assert((0x7828221c770785fa09a96f669aeaa * ratio_factor_spec(18)) / limb() == 0x100013b504ea15d2798b43080);
        assert(ratio_from(0x7828221c770785fa09a96f669aeaa, 1, 18) == ratio_from(0x100013b504ea15d2798b43080, 0, 19));
    }
    assert(ratio_from(0x149464f890298e7c2459d76bcf51a389, 3, 17) == 0x100013b504ea15d2798b43080) by {
        assert((0x149464f890298e7c2459d76bcf51a389 * ratio_factor_spec(17)) / limb() == 0x7828221c770785fa09a96f669aeaa);
        assert(ratio_from(0x149464f890298e7c2459d76bcf51a389, 3, 17) == ratio_from(0x7828221c770785fa09a96f669aeaa, 1, 18));
    }
    assert(ratio_from(0x149464f890298e7c2459d76bcf51a389, 6, 16) == 0x100013b504ea15d2798b43080) by {
        assert(ratio_from(0x149464f890298e7c2459d76bcf51a389, 6, 16) == ratio_from(0x149464f890298e7c2459d76bcf51a389, 3, 17));
    }
    assert(ratio_from(0x69e9d3245355f05309282fa53772eb5b, 13, 15) == 0x100013b504ea15d2798b43080) by {
        assert((0x69e9d3245355f05309282fa53772eb5b * ratio_factor_spec(15)) / limb() == 0x149464f890298e7c2459d76bcf51a389);
        assert(ratio_from(0x69e9d3245355f05309282fa53772eb5b, 13, 15) == ratio_from(0x149464f890298e7c2459d76bcf51a389, 6, 16));
    }
    assert(ratio_from(0xf0462f8012a80dbeac7bbe1ce3d448fe, 27, 14) == 0x100013b504ea15d2798b43080) by {
        assert((0xf0462f8012a80dbeac7bbe1ce3d448fe * ratio_factor_spec(14)) / limb() == 0x69e9d3245355f05309282fa53772eb5b);
        assert(ratio_from(0xf0462f8012a80dbeac7bbe1ce3d448fe, 27, 14) == ratio_from(0x69e9d3245355f05309282fa53772eb5b, 13, 15));
    }
    assert(ratio_from(0xf0462f8012a80dbeac7bbe1ce3d448fe, 54, 13) == 0x100013b504ea15d2798b43080) by {
        assert(ratio_from(0xf0462f8012a80dbeac7bbe1ce3d448fe, 54, 13) == ratio_from(0xf0462f8012a80dbeac7bbe1ce3d448fe, 27, 14));
    }
    assert(ratio_from(0xf0462f8012a80dbeac7bbe1ce3d448fe, 108, 12) == 0x100013b504ea15d2798b43080) by {
        assert(ratio_from(0xf0462f8012a80dbeac7bbe1ce3d448fe, 108, 12) == ratio_from(0xf0462f8012a80dbeac7bbe1ce3d448fe, 54, 13));
    }
    assert(ratio_from(0xf0462f8012a80dbeac7bbe1ce3d448fe, 216, 11) == 0x100013b504ea15d2798b43080) by {
        assert(ratio_from(0xf0462f8012a80dbeac7bbe1ce3d448fe, 216, 11) == ratio_from(0xf0462f8012a80dbeac7bbe1ce3d448fe, 108, 12));
    }
    assert(ratio_from(0xfce55b929084e6e27dcf540ad5c4a7e9, 433, 10) == 0x100013b504ea15d2798b43080) by {
        assert((0xfce55b929084e6e27dcf540ad5c4a7e9 * ratio_factor_spec(10)) / limb() == 0xf0462f8012a80dbeac7bbe1ce3d448fe);
        assert(ratio_from(0xfce55b929084e6e27dcf540ad5c4a7e9, 433, 10) == ratio_from(0xf0462f8012a80dbeac7bbe1ce3d448fe, 216, 11));
    }
    assert(ratio_from(0xfce55b929084e6e27dcf540ad5c4a7e9, 866, 9) == 0x100013b504ea15d2798b43080) by {
        assert(ratio_from(0xfce55b929084e6e27dcf540ad5c4a7e9, 866, 9) == ratio_from(0xfce55b929084e6e27dcf540ad5c4a7e9, 433, 10));
    }
    assert(ratio_from(0xfce55b929084e6e27dcf540ad5c4a7e9, 1732, 8) == 0x100013b504ea15d2798b43080) by {
        assert(ratio_from(0xfce55b929084e6e27dcf540ad5c4a7e9, 1732, 8) == ratio_from(0xfce55b929084e6e27dcf540ad5c4a7e9, 866, 9));
    }
    assert(ratio_from(0xfe8502a1d2deba8e9fadb447af58e55e, 3465, 7) == 0x100013b504ea15d2798b43080) by {
        assert((0xfe8502a1d2deba8e9fadb447af58e55e * ratio_factor_spec(7)) / limb() == 0xfce55b929084e6e27dcf540ad5c4a7e9);
        assert(ratio_from(0xfe8502a1d2deba8e9fadb447af58e55e, 3465, 7) == ratio_from(0xfce55b929084e6e27dcf540ad5c4a7e9, 1732, 8));
    }
    assert(ratio_from(0xff55d6124e34a7c88f6a90082dedc963, 6931, 6) == 0x100013b504ea15d2798b43080) by {
        assert((0xff55d6124e34a7c88f6a90082dedc963 * ratio_factor_spec(6)) / limb() == 0xfe8502a1d2deba8e9fadb447af58e55e);
        assert(ratio_from(0xff55d6124e34a7c88f6a90082dedc963, 6931, 6) == ratio_from(0xfe8502a1d2deba8e9fadb447af58e55e, 3465, 7));
    }
    assert(ratio_from(0xffbe8001fdce28e9693a528072063403, 13863, 5) == 0x100013b504ea15d2798b43080) by {
        assert((0xffbe8001fdce28e9693a528072063403 * ratio_factor_spec(5)) / limb() == 0xff55d6124e34a7c88f6a90082dedc963);
        assert(ratio_from(0xffbe8001fdce28e9693a528072063403, 13863, 5) == ratio_from(0xff55d6124e34a7c88f6a90082dedc963, 6931, 6));
    }
    assert(ratio_from(0xfff2e50f5f656932ef12357cf3c7fdcc, 27727, 4) == 0x100013b504ea15d2798b43080) by {
        assert((0xfff2e50f5f656932ef12357cf3c7fdcc * ratio_factor_spec(4)) / limb() == 0xffbe8001fdce28e9693a528072063403);
        assert(ratio_from(0xfff2e50f5f656932ef12357cf3c7fdcc, 27727, 4) == ratio_from(0xffbe8001fdce28e9693a528072063403, 13863, 5));
    }
    assert(ratio_from(0xfff2e50f5f656932ef12357cf3c7fdcc, 55454, 3) == 0x100013b504ea15d2798b43080) by {
        assert(ratio_from(0xfff2e50f5f656932ef12357cf3c7fdcc, 55454, 3) == ratio_from(0xfff2e50f5f656932ef12357cf3c7fdcc, 27727, 4));
    }
    assert(ratio_from(limb(), 110909, 2) == 0x100013b504ea15d2798b43080) by {
        assert((limb() * ratio_factor_spec(2)) / limb() == 0xfff2e50f5f656932ef12357cf3c7fdcc);
        assert(ratio_from(limb(), 110909, 2) == ratio_from(0xfff2e50f5f656932ef12357cf3c7fdcc, 55454, 3));
    }
    assert(ratio_from(limb(), 221818, 1) == 0x100013b504ea15d2798b43080) by {
        assert(ratio_from(limb(), 221818, 1) == ratio_from(limb(), 110909, 2));
    }
    assert(ratio_from(limb(), 443636, 0) == 0x100013b504ea15d2798b43080) by {
        assert(ratio_from(limb(), 443636, 0) == ratio_from(limb(), 221818, 1));
    }

}

/// Over the tick domain the Q128.128 ratio is positive, at most one, and
/// decreases as the magnitude grows.
pub proof fn lemma_ratio_bounds(n: nat)
    requires
        n <= MAX_TICK,
    ensures
        0x100013b504ea15d2798b43080 <= ratio_q128(n) <= limb(),
        n >= 1 ==> ratio_q128(n) <= limb() - 0x400000000000000000,
    decreases n,
{
    lemma_ratio_at_max();
    lemma_ratio_above_max(n);
    if n > 0 {
        lemma_ratio_bounds((n - 1) as nat);
        lemma_ratio_adjacent((n - 1) as nat);
    }
}

/// No ratio of the domain lies under the ratio of the largest magnitude.
proof fn lemma_ratio_above_max(n: nat)
    requires
        n <= MAX_TICK,
    ensures
        ratio_q128(n) >= ratio_q128(MAX_TICK as nat),
    decreases MAX_TICK - n,
{
    if n < MAX_TICK {
        lemma_ratio_adjacent(n);
        lemma_ratio_above_max(n + 1);
    }
}

/// Inverting two ratios that are `e` apart gives quotients that are at
/// least `e - 1` apart, the other way round.
pub proof fn lemma_inverse_gap(x: int, y: int, e: int)
    requires
        0 < y,
        x - y >= e,
        e >= 1,
        x <= limb(),
    ensures
        (wide_bound() - 1) / y - (wide_bound() - 1) / x >= e - 1,
{
    let u = wide_bound() - 1;
    let q = u / x;
    let p = u / y;
    vstd::arithmetic::div_mod::lemma_fundamental_div_mod(u, x);
    vstd::arithmetic::div_mod::lemma_mod_bound(u, x);
    vstd::arithmetic::div_mod::lemma_fundamental_div_mod(u, y);
    vstd::arithmetic::div_mod::lemma_mod_bound(u, y);
    let rx = u % x;
    let ry = u % y;
    assert(q * x <= u) by (nonlinear_arith)
        requires
            u == x * q + rx,
            rx >= 0,
    ;
    assert(q >= limb() - 1) by (nonlinear_arith)
        requires
            u == x * q + rx,
            rx < x,
            0 < x <= limb(),
            u == limb() * limb() - 1,
    ;
    assert((q + e - 1) * (x - e) <= u) by (nonlinear_arith)
        requires
            q * x <= u,
            q >= limb() - 1,
            x <= limb(),
            e >= 1,
    ;
    assert((q + e - 1) * y <= (q + e - 1) * (x - e)) by (nonlinear_arith)
        requires
            0 < y <= x - e,
            q + e - 1 >= 0,
    ;
    assert(q + e - 1 <= p) by (nonlinear_arith)
        requires
            (q + e - 1) * y <= u,
            u == y * p + ry,
            ry < y,
            y > 0,
    ;
}

/// The unclamped square-root price grows by more than 2^37 from each tick
/// of the domain to the next.
pub proof fn lemma_raw_adjacent(t: int)
    requires
        MIN_TICK <= t < MAX_TICK,
    ensures
        raw_sqrt_ratio(t + 1) - raw_sqrt_ratio(t) >= 0x2000000000,
{
    if t < 0 {
        let n = (-t - 1) as nat;
        assert(tick_magnitude(t) == n + 1);
        assert(tick_magnitude(t + 1) == n);
        lemma_ratio_adjacent(n);
        assert(raw_sqrt_ratio(t + 1) - raw_sqrt_ratio(t) >= 0x2000000000);
    } else if t == 0 {
        reveal_with_fuel(ratio_from, 3);
        assert(ratio_q128(0) == limb());
        assert(ratio_q128(1) == scale_ratio(limb(), 0));
        assert(scale_ratio(limb(), 0) == ratio_factor_spec(0));
        assert(tick_magnitude(1) == 1);
        assert(raw_sqrt_ratio(1) == ((wide_bound() - 1) / ratio_factor_spec(0)) / 0x1_0000_0000);
        assert(raw_sqrt_ratio(0) == limb() / 0x1_0000_0000);
        assert(raw_sqrt_ratio(t + 1) - raw_sqrt_ratio(t) >= 0x2000000000);
    } else {
        let n = t as nat;
        lemma_ratio_adjacent(n);
        lemma_ratio_bounds(n);
        lemma_ratio_bounds(n + 1);
        lemma_inverse_gap(ratio_q128(n), ratio_q128(n + 1), 0x400000000000000000);
        assert(tick_magnitude(t) == n);
        assert(tick_magnitude(t + 1) == n + 1);
        assert(raw_sqrt_ratio(t + 1) - raw_sqrt_ratio(t) >= 0x2000000000);
    }
}

/// The unclamped square-root price is strictly increasing over the tick
/// domain.
pub proof fn lemma_raw_increasing(t1: int, t2: int)
    requires
        MIN_TICK <= t1 < t2 <= MAX_TICK,
    ensures
        raw_sqrt_ratio(t1) < raw_sqrt_ratio(t2),
    decreases t2 - t1,
{
    lemma_raw_adjacent(t2 - 1);
    if t1 < t2 - 1 {
        lemma_raw_increasing(t1, t2 - 1);
    }
}

/// The unclamped square-root prices at the two ends of the tick domain
/// are the two ends of the price domain.
pub proof fn lemma_raw_at_ends()
    ensures
        raw_sqrt_ratio(MIN_TICK as int) == MIN_SQRT_RATIO,
        raw_sqrt_ratio(MAX_TICK as int) == MAX_SQRT_RATIO,
{
    lemma_ratio_at_max();
    assert(tick_magnitude(MIN_TICK as int) == MAX_TICK as nat);
    assert(tick_magnitude(MAX_TICK as int) == MAX_TICK as nat);
}

/// Over the tick domain the clamp changes nothing: the square-root price
/// is the unclamped one, it lies in the price domain, and the ends of the
/// tick domain give the ends of the price domain.
pub proof fn lemma_sqrt_ratio_is_raw(t: int)
    requires
        MIN_TICK <= t <= MAX_TICK,
    ensures
        sqrt_ratio_at_tick_spec(t) == raw_sqrt_ratio(t),
        MIN_SQRT_RATIO <= sqrt_ratio_at_tick_spec(t) <= MAX_SQRT_RATIO,
        t == MIN_TICK <==> sqrt_ratio_at_tick_spec(t) == MIN_SQRT_RATIO,
        t == MAX_TICK <==> sqrt_ratio_at_tick_spec(t) == MAX_SQRT_RATIO,
{
    lemma_raw_at_ends();
    if MIN_TICK < t {
        lemma_raw_increasing(MIN_TICK as int, t);
    }
    if t < MAX_TICK {
        lemma_raw_increasing(t, MAX_TICK as int);
    }
}

/// The square-root price is strictly increasing in the tick, over the
/// whole tick domain.
pub proof fn sqrt_ratio_strictly_monotonic(t1: int, t2: int)
    requires
        MIN_TICK <= t1 < t2 <= MAX_TICK,
    ensures
        sqrt_ratio_at_tick_spec(t1) < sqrt_ratio_at_tick_spec(t2),
{
    lemma_sqrt_ratio_is_raw(t1);
    lemma_sqrt_ratio_is_raw(t2);
    lemma_raw_increasing(t1, t2);
}

/// The square-root price does not decrease as the tick grows.
pub proof fn lemma_sqrt_ratio_monotonic(t1: int, t2: int)
    requires
        MIN_TICK <= t1 <= t2 <= MAX_TICK,
    ensures
        sqrt_ratio_at_tick_spec(t1) <= sqrt_ratio_at_tick_spec(t2),
{
    if t1 < t2 {
        sqrt_ratio_strictly_monotonic(t1, t2);
    }
}

/// Two ticks of the domain with the same square-root price are the same
/// tick.
pub proof fn lemma_sqrt_ratio_injective(t1: int, t2: int)
    requires
        MIN_TICK <= t1 <= MAX_TICK,
        MIN_TICK <= t2 <= MAX_TICK,
        sqrt_ratio_at_tick_spec(t1) == sqrt_ratio_at_tick_spec(t2),
    ensures
        t1 == t2,
{
    if t1 < t2 {
        sqrt_ratio_strictly_monotonic(t1, t2);
    }
    if t2 < t1 {
        sqrt_ratio_strictly_monotonic(t2, t1);
    }
}

/// A tick whose price is at most `p`, above which every price up to `hi`
/// exceeds `p`, is the one that the search from `hi` finds.
pub proof fn lemma_largest_tick_found(p: int, hi: int, t: int)
    requires
        MIN_TICK <= t <= hi <= MAX_TICK,
        t == MIN_TICK || sqrt_ratio_at_tick_spec(t) <= p,
        forall|s: int| t < s <= hi ==> #[trigger] sqrt_ratio_at_tick_spec(s) > p,
    ensures
        largest_tick_at_or_below(p, hi) == t,
    decreases hi - t,
{
    if t < hi {
        lemma_largest_tick_found(p, hi - 1, t);
    }
}

/// The tick of a tick's own square-root price is that tick: the round
/// trip through the price is exact, and so within one tick. The last
/// tick is left out, as its price is the excluded end of the price
/// domain.
pub proof fn tick_ratio_roundtrip(t: int)
    requires
        MIN_TICK <= t < MAX_TICK,
    ensures
        sqrt_ratio_at_tick_spec(t) < MAX_SQRT_RATIO,
        sqrt_ratio_at_tick_spec(t) >= MIN_SQRT_RATIO,
        tick_at_sqrt_ratio_spec(sqrt_ratio_at_tick_spec(t) as u128) == Ok::<i32, PoolError>(
            t as i32,
        ),
        -1 <= tick_at_sqrt_ratio_spec(sqrt_ratio_at_tick_spec(t) as u128)->Ok_0 - t <= 1,
{
    lemma_sqrt_ratio_is_raw(t);
    let p = sqrt_ratio_at_tick_spec(t);
    assert forall|s: int| t < s <= MAX_TICK implies #[trigger] sqrt_ratio_at_tick_spec(s) > p by {
        sqrt_ratio_strictly_monotonic(t, s);
    }
    lemma_largest_tick_found(p, MAX_TICK as int, t);
}

/// The tick that the search returns brackets the price: its own price is
/// at most `p` unless no tick's is, and the next tick's price exceeds `p`.
pub proof fn lemma_tick_at_sqrt_ratio_brackets(p: u128)
    requires
        MIN_SQRT_RATIO <= p < MAX_SQRT_RATIO,
    ensures
        MIN_TICK <= largest_tick_at_or_below(p as int, MAX_TICK as int) <= MAX_TICK,
        largest_tick_at_or_below(p as int, MAX_TICK as int) == MIN_TICK || sqrt_ratio_at_tick_spec(
            largest_tick_at_or_below(p as int, MAX_TICK as int),
        ) <= p,
        forall|s: int|
            largest_tick_at_or_below(p as int, MAX_TICK as int) < s <= MAX_TICK
                ==> #[trigger] sqrt_ratio_at_tick_spec(s) > p,
{
    lemma_largest_tick_brackets(p as int, MAX_TICK as int);
}

proof fn lemma_largest_tick_brackets(p: int, hi: int)
    requires
        MIN_TICK <= hi <= MAX_TICK,
    ensures
        MIN_TICK <= largest_tick_at_or_below(p, hi) <= hi,
        largest_tick_at_or_below(p, hi) == MIN_TICK || sqrt_ratio_at_tick_spec(
            largest_tick_at_or_below(p, hi),
        ) <= p,
        forall|s: int|
            largest_tick_at_or_below(p, hi) < s <= hi ==> #[trigger] sqrt_ratio_at_tick_spec(s)
                > p,
    decreases hi - MIN_TICK,
{
    if hi > MIN_TICK && sqrt_ratio_at_tick_spec(hi) > p {
        lemma_largest_tick_brackets(p, hi - 1);
    }
}

fn ratio_factor(k: u32) -> (r: u128)
    requires
        k < 19,
    ensures
        r as int == ratio_factor_spec(k as int),
{
    if k == 0 {
        0xfffcb933bd6fad37aa2d162d1a594001
    } else if k == 1 {
        0xfff97272373d413259a46990580e213a
    } else if k == 2 {
        0xfff2e50f5f656932ef12357cf3c7fdcc
    } else if k == 3 {
        0xffe5caca7e10e4e61c3624eaa0941cd0
    } else if k == 4 {
        0xffcb9843d60f6159c9db58835c926644
    } else if k == 5 {
        0xff973b41fa98c081472e6896dfb254c0
    } else if k == 6 {
        0xff2ea16466c96a3843ec78b326b52861
    } else if k == 7 {
        0xfe5dee046a99a2a811c461f1969c3053
    } else if k == 8 {
        0xfcbe86c7900a88aedcffc83b479aa3a4
    } else if k == 9 {
        0xf987a7253ac413176f2b074cf7815e54
    } else if k == 10 {
        0xf3392b0822b70005940c7a398e4b70f3
    } else if k == 11 {
        0xe7159475a2c29b7443b29c7fa6e889d9
    } else if k == 12 {
        0xd097f3bdfd2022b8845ad8f792aa5825
    } else if k == 13 {
        0xa9f746462d870fdf8a65dc1f90e061e5
    } else if k == 14 {
        0x70d869a156d2a1b890bb3df62baf32f7
    } else if k == 15 {
        0x31be135f97d08fd981231505542fcfa6
    } else if k == 16 {
        0x9aa508b5b7a84e1c677de54f3e99bc9
    } else if k == 17 {
        0x5d6af8dedb81196699c329225ee604
    } else {
        0x2216e584f5fa1ea926041bedfe98
    }
}

/// `floor(x * y / 2^128)` for an accumulator of at most one.
fn mul_shift_128(x: &Wide, y: u128) -> (r: Wide)
    requires
        x@ <= limb(),
    ensures
        r@ == (x@ * y as int) / limb(),
{
    if x.hi == 0 {
        let product = Wide::full_mul(x.lo, y);
        proof {
            lemma_div_rem_unique(
                x@ * y as int,
                limb(),
                product.hi as int,
                product.lo as int,
            );
        }
        Wide { hi: 0, lo: product.hi }
    } else {
        proof {
            assert(x.hi == 1 && x.lo == 0);
            assert(x@ * y as int == y as int * limb() + 0) by (nonlinear_arith)
                requires
                    x@ == limb(),
            ;
            lemma_div_rem_unique(x@ * y as int, limb(), y as int, 0);
        }
        Wide::from_u128(y)
    }
}

/// The square-root price `sqrt(1.0001^tick) * 2^96` of a tick of the
/// domain. It lies in `[MIN_SQRT_RATIO, MAX_SQRT_RATIO]`.
pub fn get_sqrt_ratio_at_tick(tick: i32) -> (r: u128)
    requires
        MIN_TICK <= tick <= MAX_TICK,
    ensures
        r as int == sqrt_ratio_at_tick_spec(tick as int),
        MIN_SQRT_RATIO <= r <= MAX_SQRT_RATIO,
{
    let abs_tick: u32 = if tick < 0 {
        (-tick) as u32
    } else {
        tick as u32
    };
    let mut ratio = Wide { hi: 1, lo: 0 };
    let mut m: u32 = abs_tick;
    let mut k: u32 = 0;
    while m != 0
        invariant
            ratio@ <= limb(),
            m as int <= tick_cap(k as int),
            ratio_from(ratio@, m as nat, k as int) == ratio_q128(abs_tick as nat),
        decreases m,
    {
        if m % 2 == 1 {
            proof {
                assert((ratio@ * ratio_factor_spec(k as int)) / limb() <= ratio@) by {
                    let c = ratio_factor_spec(k as int);
                    ratio.lemma_view_range();
                    assert(ratio@ * c <= ratio@ * limb()) by (nonlinear_arith)
                        requires
                            0 <= ratio@,
                            0 <= c <= limb(),
                    ;
                }
            }
            ratio = mul_shift_128(&ratio, ratio_factor(k));
        }
        m = m / 2;
        k = k + 1;
    }
    proof {
        lemma_ratio_bounds(abs_tick as nat);
        assert(tick_magnitude(tick as int) == abs_tick as nat);
    }
    let scaled = if tick > 0 {
        let (inverse, _rest) = Wide::div_rem(Wide::max_value(), &ratio);
        inverse
    } else {
        ratio
    };
    let (shifted, _low) = Wide::div_rem(scaled, &Wide::from_u128(0x1_0000_0000));
    let capped: u128 = match shifted.to_u128() {
        Some(value) => value,
        None => u128::MAX,
    };
    if capped < MIN_SQRT_RATIO {
        MIN_SQRT_RATIO
    } else if capped > MAX_SQRT_RATIO {
        MAX_SQRT_RATIO
    } else {
        capped
    }
}

/// The tick of a square-root price: the largest tick whose own price is
/// at most `sqrt_price_x96`, and `MIN_TICK` for a price under every
/// tick's. Fails outside `[MIN_SQRT_RATIO, MAX_SQRT_RATIO)`.
pub fn get_tick_at_sqrt_ratio(sqrt_price_x96: u128) -> (r: Result<i32, PoolError>)
    ensures
        r == tick_at_sqrt_ratio_spec(sqrt_price_x96),
        r is Ok ==> MIN_TICK <= r->Ok_0 <= MAX_TICK,
{
    if sqrt_price_x96 < MIN_SQRT_RATIO || sqrt_price_x96 >= MAX_SQRT_RATIO {
        return Err(PoolError::PriceOutOfRange);
    }
    let mut low: i32 = MIN_TICK;
    let mut high: i32 = MAX_TICK;
    while low < high
        invariant
            MIN_TICK <= low <= high <= MAX_TICK,
            low == MIN_TICK || sqrt_ratio_at_tick_spec(low as int) <= sqrt_price_x96,
            high == MAX_TICK || sqrt_ratio_at_tick_spec(high + 1) > sqrt_price_x96,
        decreases high - low,
    {
        let mid: i32 = low + (high - low + 1) / 2;
        let sqrt_at_mid = get_sqrt_ratio_at_tick(mid);
        if sqrt_at_mid <= sqrt_price_x96 {
            low = mid;
        } else {
            high = mid - 1;
        }
    }
    proof {
        let p = sqrt_price_x96 as int;
        assert forall|s: int| low < s <= MAX_TICK implies #[trigger] sqrt_ratio_at_tick_spec(s)
            > p by {
            if s > high + 1 {
                sqrt_ratio_strictly_monotonic(high + 1, s);
            }
        }
        lemma_largest_tick_found(p, MAX_TICK as int, low as int);
    }
    Ok(low)
}

} // verus!
