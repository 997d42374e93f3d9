//! Accounting and pricing core of a two-asset liquidity pool priced along a
//! linear bonding curve.
//!
//! The crate tracks pooled reserves of two fungible assets, issues and redeems
//! proportional ownership shares, and prices swaps by the closed-form integral
//! of the curve. Every mutation is overflow- and underflow-checked; a failing
//! operation reports a typed error and leaves the ledger exactly as it was.
//! Asset custody (actually moving tokens) and address derivation are external
//! collaborators: the engine only decides how much to move and in which
//! direction, and hands those amounts back to the caller.

pub mod asset;
pub mod engine;
pub mod errors;
pub mod laws;
pub mod math;
pub mod state;

pub use errors::PoolError;
