//! Task scheduling.
pub mod schedule;
pub mod stride;
