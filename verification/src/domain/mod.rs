//! Service state and metric models.
pub mod metrics;
pub mod service;
