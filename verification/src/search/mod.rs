//! The strategies that work on a condition.
pub mod handler;
pub mod amp;
