//! The collector: discovers containers, reads their output, forwards records
//! and keeps the watermark of what has been delivered.

pub mod api_service;
pub mod app_config;
pub mod checkpoint;
pub mod container;
pub mod container_log_extractor;
pub mod delivery_queue;
