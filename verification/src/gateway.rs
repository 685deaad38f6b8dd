//! The ingestion gateway: authenticates a request, validates its payload and
//! says what to publish.

pub mod app_config;
pub mod log_service;
