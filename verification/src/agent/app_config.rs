//! Settings of the collector process.

use vstd::prelude::*;
use vstd::std_specs::cmp::PartialEqSpecImpl;

verus! {

/// Queue capacity used when the environment names none.
pub const DEFAULT_MESSAGE_BUFFER_SIZE: usize = 32;

/// Seconds between two container listings when the environment names none.
pub const DEFAULT_POLL_INTERVAL_IN_SECONDS: u64 = 2;

/// Everything the collector is configured with.
#[derive(Debug)]
pub struct AppConfig {
    /// Base address of the ingestion gateway.
    pub api_url: String,
    /// Shared secret sent with every record.
    pub api_token: String,
    /// Only containers whose name starts with this are collected.
    pub container_selector: String,
    /// Capacity of the delivery queue.
    pub message_buffer_size: usize,
    /// Seconds between two container listings.
    pub docker_container_poll_interval_in_seconds: u64,
}

impl AppConfig {
    /// A queue needs room for at least one record and a timer needs a
    /// non-zero period.
    pub open spec fn usable(&self) -> bool {
        self.message_buffer_size > 0 && self.docker_container_poll_interval_in_seconds > 0
    }

    /// Whether a collector can be started from these settings.
    pub fn is_usable(&self) -> (usable: bool)
        ensures
            usable == self.usable(),
    {
        self.message_buffer_size > 0 && self.docker_container_poll_interval_in_seconds > 0
    }

    /// Builds the settings from what the environment provided, falling back
    /// to the defaults for the two optional values.
    pub fn from_settings(
        api_url: String,
        api_token: String,
        container_selector: String,
        message_buffer_size: Option<usize>,
        docker_container_poll_interval_in_seconds: Option<u64>,
    ) -> (config: AppConfig)
        ensures
            config.api_url == api_url,
            config.api_token == api_token,
            config.container_selector == container_selector,
            config.message_buffer_size == match message_buffer_size {
                Some(size) => size,
                None => DEFAULT_MESSAGE_BUFFER_SIZE,
            },
            config.docker_container_poll_interval_in_seconds
                == match docker_container_poll_interval_in_seconds {
                Some(seconds) => seconds,
                None => DEFAULT_POLL_INTERVAL_IN_SECONDS,
            },
    {
        AppConfig {
            api_url,
            api_token,
            container_selector,
            message_buffer_size: match message_buffer_size {
                Some(size) => size,
                None => DEFAULT_MESSAGE_BUFFER_SIZE,
            },
            docker_container_poll_interval_in_seconds: match docker_container_poll_interval_in_seconds {
                Some(seconds) => seconds,
                None => DEFAULT_POLL_INTERVAL_IN_SECONDS,
            },
        }
    }
}

impl Default for AppConfig {
    fn default() -> (config: AppConfig)
        ensures
            config.api_url@ == Seq::<char>::empty(),
            config.api_token@ == Seq::<char>::empty(),
            config.container_selector@ == Seq::<char>::empty(),
            config.message_buffer_size == 0,
            config.docker_container_poll_interval_in_seconds == 0,
    {
        AppConfig {
            api_url: String::new(),
            api_token: String::new(),
            container_selector: String::new(),
            message_buffer_size: 0,
            docker_container_poll_interval_in_seconds: 0,
        }
    }
}

impl PartialEq for AppConfig {
    fn eq(&self, other: &AppConfig) -> (equal: bool) {
        self.api_url == other.api_url && self.api_token == other.api_token
            && self.container_selector == other.container_selector && self.message_buffer_size
            == other.message_buffer_size && self.docker_container_poll_interval_in_seconds
            == other.docker_container_poll_interval_in_seconds
    }
}

impl Eq for AppConfig {

}

impl PartialEqSpecImpl for AppConfig {
    open spec fn obeys_eq_spec() -> bool {
        true
    }

    open spec fn eq_spec(&self, other: &AppConfig) -> bool {
        self.api_url@ == other.api_url@ && self.api_token@ == other.api_token@
            && self.container_selector@ == other.container_selector@ && self.message_buffer_size
            == other.message_buffer_size && self.docker_container_poll_interval_in_seconds
            == other.docker_container_poll_interval_in_seconds
    }
}

} // verus!
