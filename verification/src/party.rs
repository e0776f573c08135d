//! Inference of pre-made parties from partial signals, and its per-match cache.

pub mod cache;
pub mod collect;
pub mod label;
pub mod laws;
pub mod model;
pub mod signals;
