//! A quality-diversity optimizer core: a grid-indexed archive of elite
//! solutions, together with the pure decision logic of the
//! sample / mutate / evaluate / insert loop that fills it.
//!
//! Scalar payloads (solutions, objectives, measures) are carried as the
//! 64-bit patterns of IEEE-754 doubles; the archive's replacement rule
//! compares objectives through a verified integer model of the IEEE
//! ordering, so every bookkeeping invariant is machine-checked.

pub mod archive;
pub mod config;
pub mod controller;
pub mod float_ord;
pub mod sampling;
pub mod utils;
