//! What the tracking runtime decides inside the target: which records a
//! comparison or a switch yields, and in which order they are numbered.
pub mod records;
pub mod logger;
