//! Exact statistics over market observations.
//!
//! Prices and volumes are held as exact rational numbers ([`rat::Rat`]),
//! so every statistic (mean, VWAP, variance and their volume-weighted and
//! bid/ask-grouped variants, plus a profit-and-loss breakdown) is computed
//! and specified exactly, with arithmetic overflow reported as `None`
//! instead of wrapping or panicking.

pub mod rat;
pub mod series;
pub mod pnl;
pub mod stats;
