//! What the three stages share: the log record and its codec.

pub mod log;
