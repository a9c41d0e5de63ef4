//! Bounded in-memory trend detection.
pub mod trends;
