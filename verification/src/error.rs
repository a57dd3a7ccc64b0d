use vstd::prelude::*;

verus! {

/// Every way an operation of the pool can end without effect.
#[derive(Clone, Copy, Debug, PartialEq, Eq, Structural)]
pub enum PoolError {
    /// The pool was initialized before.
    AlreadyInitialized,
    /// The pool was not initialized yet.
    NotInitialized,
    /// The first token of the pair does not come before the second.
    BadTokenOrder,
    /// The fee is not under one million hundredths of a basis point.
    InvalidFee,
    /// The tick spacing is not between 1 and 16384.
    InvalidTickSpacing,
    /// The ticks of a range are not in order, not in the tick domain, or
    /// not on the spacing.
    BadTickRange,
    /// The price limit of a swap is not between the end of the price
    /// domain and the current price, on the side the swap moves to.
    BadPriceLimit,
    /// An amount that has to be positive is zero.
    ZeroAmount,
    /// A price is outside the price domain.
    PriceOutOfRange,
    /// Liquidity would rise over the cap of a tick or over `u128::MAX`.
    LiquidityOverflow,
    /// More liquidity is burnt than the position holds.
    BurnExceedsLiquidity,
    /// Liquidity would fall under zero.
    LiquidityUnderflow,
    /// A price or an amount would fall under zero, or a price is zero
    /// where it divides.
    NumericUnderflow,
    /// An amount does not fit the integer type that holds it.
    NumericOverflow,
    /// A denominator is zero.
    DivisionByZero,
    /// The caller is not the one entitled to the operation.
    Unauthorized,
}

} // verus!
