//! What the executor decides around each run of the target.
pub use self::judge::Executor;
pub use crate::status_type::StatusType;

pub mod exit;
pub mod judge;
pub mod news;
pub mod track;
pub mod envs;
