//! Error taxonomy of the protocol core.
//!
//! Every arithmetic primitive fails explicitly instead of wrapping, and every
//! rejected input is reported with a dedicated variant; nothing is resolved by
//! truncation or wraparound.

use vstd::prelude::*;

verus! {

/// All conditions under which the core refuses to act.
#[derive(Clone, Copy, Debug, PartialEq, Eq, Structural)]
pub enum XxusdError {
    ProgramFrozen,
    InvalidCollateralAmount,
    InsufficientCollateralBalance,
    InvalidRedeemableAmount,
    InsufficientRedeemableBalance,
    InvalidDepository,
    InvalidRedeemableMint,
    InvalidCollateralMint,
    InvalidOwner,
    InvalidController,
    /// A value does not fit in the narrower width it is converted to.
    Overflow,
    InvalidRedeemableMintDecimals,
    /// A vesting lock was created with a non-positive period.
    InvalidLockPeriod,
    LockPeriodNotEnded,
    InvalidProductPrice,
    InvalidHedgingStrategy,
    ProductNotFound,
    /// An arithmetic result exceeds the width of its operands.
    MathOverflow,
    /// A proportional split was asked for with a zero denominator.
    DivisionByZero,
    InsufficientFunds,
    InvalidMint,
    /// No lock with a positive remaining amount exists.
    LockNotFound,
    InsufficientCollateral,
    InvalidProductId,
    MaxProductsReached,
    InvalidAmount,
    /// A release was computed before any amount had accrued.
    InsufficientReleasableAmount,
    InsufficientBalance,
    /// The depository vector does not match the configured count.
    InvalidDepositoriesVector,
    /// The depository weights do not sum to exactly 10000 basis points.
    InvalidDepositoriesWeightBps,
    /// The liquid, unlocked depositories cannot cover the requested redeem.
    InsufficientRedeemableAmount,
    /// The depositories' targets cannot absorb the requested mint.
    DepositoriesTargetRedeemableAmountReached,
    StalePriceFeed,
}

} // verus!
