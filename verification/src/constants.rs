use vstd::prelude::*;

verus! {

/// 2^96, the unit of the Q64.96 square-root price format.
pub const Q96: u128 = 0x1_0000_0000_0000_0000_0000_0000;

/// 2^64.
pub const Q64: u128 = 0x1_0000_0000_0000_0000;

/// Lowest tick index of the price domain.
pub const MIN_TICK: i32 = -443636;

/// Highest tick index of the price domain.
pub const MAX_TICK: i32 = 443636;

/// Square-root price at `MIN_TICK`, the lower end of the price domain.
pub const MIN_SQRT_RATIO: u128 = 18447090764788882727;

/// Square-root price at `MAX_TICK`, the upper end of the price domain.
pub const MAX_SQRT_RATIO: u128 = 340275971719517849884101479065584693833;

/// Fees are expressed in millionths of the input amount.
pub const FEE_DENOMINATOR: u32 = 1_000_000;

/// Largest tick spacing a pool may be configured with.
pub const MAX_TICK_SPACING: i32 = 16384;

/// Number of initialized ticks one swap may cross before it returns a
/// partial fill.
pub const MAX_TICK_CROSSINGS_PER_SWAP: u32 = 40;

/// Largest page a paginated listing hands out.
pub const MAX_PAGE_SIZE: u32 = 50;

} // verus!
