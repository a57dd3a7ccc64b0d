//! Pool engine of a concentrated-liquidity market maker: fixed-point
//! numerics, tick index, position accounting and the swap loop, each with
//! a machine-checked contract.
//!
//! The numerics are pure functions over integers: `wide` and `full_math`
//! multiply and divide through 256 bits, `tick_math` maps ticks to
//! square-root prices and back, `sqrt_price_math`, `liquidity_math` and
//! `swap_math` turn liquidity and price moves into token amounts. The
//! pool itself lives in a `storage::PoolStorage`; `tick`, `position`,
//! `liquidity` and `swap` change it, and `pool::DexPool` is the face it
//! shows to callers. `model` says what holds of a pool in every state,
//! and `laws` what the operations do to it. `factory` and `periphery`
//! hold the directory of pools and the bookkeeping around them.

pub mod constants;
pub mod error;
pub mod types;
pub mod wide;
pub mod full_math;
pub mod tick_math;
pub mod sqrt_price_math;
pub mod liquidity_math;
pub mod swap_math;
pub mod storage;
pub mod tick_bitmap;
pub mod tick;
pub mod position;
pub mod invariants;
pub mod model;
pub mod liquidity;
pub mod swap;
pub mod pool;
pub mod factory;
pub mod periphery;
pub mod laws;
