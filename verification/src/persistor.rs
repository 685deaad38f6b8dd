//! The committer: consumes the topic, writes each record to the sink and
//! commits a message only after its record has been written.

pub mod app_config;
pub mod committer;
