//! The reasons an operation can be refused.
use vstd::prelude::*;

verus! {

/// Every error aborts the whole operation: the ledger applies none of its
/// transfers, mints or burns.
#[derive(Clone, Copy, Debug, PartialEq, Eq, Structural)]
pub enum AmmError {
    /// The fee denominator is zero.
    InvalidFeeDenominator,
    /// The fee numerator is not below the fee denominator.
    InvalidFee,
    /// A requested amount is zero.
    ZeroAmount,
    /// An intermediate value does not fit its working width, or a division
    /// by zero was asked for.
    NumericalOverflow,
    /// A deposit into a pool with shares outstanding found an empty reserve.
    ZeroReserve,
    /// A deposit would mint no shares.
    InsufficientLiquidityProvided,
    /// More shares are redeemed than exist.
    InsufficientSupply,
    /// The caller may not swap in this pool.
    Unauthorized,
    /// A swap would pay out nothing.
    InsufficientOutputAmount,
    /// A swap would pay out less than the caller's minimum.
    SlippageExceeded,
}

impl AmmError {
    /// The human-readable message for this error.
    pub fn message(&self) -> (r: &'static str) {
        match self {
            AmmError::InvalidFeeDenominator => "Invalid fee denominator",
            AmmError::InvalidFee => "Invalid fee",
            AmmError::ZeroAmount => "Zero amount",
            AmmError::NumericalOverflow => "Numerical overflow",
            AmmError::ZeroReserve => "Zero reserve",
            AmmError::InsufficientLiquidityProvided => "Insufficient liquidity provided",
            AmmError::InsufficientSupply => "Insufficient supply",
            AmmError::Unauthorized => "Unauthorized",
            AmmError::InsufficientOutputAmount => "Insufficient output amount",
            AmmError::SlippageExceeded => "Slippage exceeded",
        }
    }
}

} // verus!
