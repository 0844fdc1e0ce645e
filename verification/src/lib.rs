//! Break-even and target sale prices for a stock position, computed
//! exactly.
//!
//! [`engine::compute`] takes the six quantities of a position as text,
//! [`pricing::evaluate`] as numbers. [`laws`] holds what is proved of every
//! position, [`grammar`] what is proved of every text.

pub mod bigint;
pub mod bignat;
pub mod decimal;
pub mod engine;
pub mod grammar;
pub mod laws;
pub mod pricing;
pub mod rational;
