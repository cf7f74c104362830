use vstd::prelude::*;

verus! {

/// Why an operation on the pool was rejected. A rejected operation leaves the
/// pool exactly as it was.
#[derive(Debug, Clone, Copy, PartialEq, Eq, Structural)]
pub enum PoolError {
    /// The payment of a swap is not a single positive amount of the asset sold.
    InvalidPayment,
    /// The pricing formula had nothing to divide by.
    InsufficientLiquidity,
    /// The swap would pay out nothing.
    InsufficientOutput,
    /// The swap would pay out more than half of the reserve of the asset bought.
    ExceedsMaxSwapSize,
    /// The caller is not the owner of the pool.
    Unauthorized,
    /// A deposit did not come as exactly two payments.
    WrongAssetCount,
    /// A deposit lacks a positive amount of one of the two assets.
    MissingAsset,
    /// A withdrawal asks for more than a reserve holds.
    InsufficientReserve,
    /// A division by zero in a read-only query.
    DivideByZero,
    /// A reserve would grow past the largest amount that a `u64` holds.
    Overflow,
}

} // verus!
