//! A verified model of a small trading-signal pipeline: synthetic price
//! generation, a per-tick momentum signal (the first difference of
//! consecutive prices), and a chunked, order-preserving aggregation of the
//! signal into one total.
//!
//! Prices and signals are held as fixed-point integers (hundredths of a
//! price unit), so every stage's arithmetic is exact and verified.

pub mod aggregate;
pub mod chunking;
pub mod device;
pub mod generator;
pub mod pipeline;
pub mod signal;
