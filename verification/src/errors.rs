use vstd::prelude::*;

verus! {

/// Failure taxonomy of the pool core. Every engine operation either succeeds
/// or reports exactly one of these and leaves the ledger untouched.
#[derive(Clone, Copy, Debug, PartialEq, Eq, Structural)]
pub enum PoolError {
    /// A pool cannot pair an asset with itself.
    DuplicateAsset,
    /// A swap was requested for a zero amount.
    InvalidAmount,
    /// A provider asked to redeem more shares than their position holds.
    InsufficientShares,
    /// Adding liquidity would mint no shares at all.
    FailedToAddLiquidity,
    /// Redeeming the given shares would pay out nothing, or nothing was asked.
    FailedToRemoveLiquidity,
    /// Granting shares would overflow the provider's position.
    FailedToAllocateShares,
    /// Burning shares asked for more than the provider's position holds.
    FailedToDeallocateShares,
    /// Covers overflow, underflow and division by zero uniformly.
    ArithmeticOverflow,
}

} // verus!
