//! The text of the terminal dashboard and the historical report.
pub mod summary;
pub mod terminal;
