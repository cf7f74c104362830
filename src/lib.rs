//! Accounting and pricing core of a two-asset constant-product liquidity pool,
//! with a small standalone counter beside it.
//!
//! Amounts are `u64` token units; every product and quotient that the pricing
//! rules need is computed exactly in `u128`.
pub mod counter;
pub mod error;
pub mod pool;
pub mod pricing;
