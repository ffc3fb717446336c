//! What a tracking run reports: the log it writes, and how the log is
//! turned into conditions.
pub mod log_data;
pub mod wire;
pub mod codec;
pub mod filter;
pub mod fparser;
