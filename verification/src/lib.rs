//! Verified core of a nebulabrot fractal renderer: histogram accumulation
//! under per-channel iteration thresholds, channel maxima for colour
//! normalization, channel permutation of the output bytes, colour-strategy
//! selection by name, and the raw dump byte codec.

pub mod colour;
pub mod dump;
pub mod histogram;
