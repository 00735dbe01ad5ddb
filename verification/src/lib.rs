//! Pricing and accounting core of a two-asset constant-product liquidity
//! pool.
//!
//! The crate computes, for each pool operation (first deposit, subsequent
//! deposit, proportional withdrawal, swap), the exact token quantities to
//! move, and proves that the arithmetic enforces the constant-product
//! invariant, the fee formula, and the caller-supplied slippage bounds.
//! Moving the funds themselves is left to an external ledger; this crate
//! only decides how much to move and under which conditions.

pub mod arith;
pub mod engine;
pub mod error;
pub mod laws;
pub mod state;
