//! The rewriting framework and the passes built on it.
pub mod add_returns;
pub mod constant_folding;
pub mod deinit;
pub mod pass;
pub mod resolve;
pub mod unscript;
