//! The pool's four instructions, each as the arithmetic that decides it: a quote taken
//! before any token moves, and the update of the cached reserves after.
pub mod add_liquidity;
pub mod initialize;
pub mod remove_liquidity;
pub mod swap;
