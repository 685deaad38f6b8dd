//! Settings of the gateway process.

use vstd::prelude::*;
use vstd::std_specs::cmp::PartialEqSpecImpl;

verus! {

/// Everything the gateway is configured with.
#[derive(Debug)]
pub struct AppConfig {
    /// The port the gateway listens on.
    pub server_port: u16,
    /// The shared secret a request must present.
    pub api_token: String,
    /// Address of the broker.
    pub kafka_host: String,
    /// The topic accepted records are published to.
    pub kafka_log_topic: String,
}

impl Default for AppConfig {
    fn default() -> (config: AppConfig)
        ensures
            config.server_port == 0,
            config.api_token@ == Seq::<char>::empty(),
            config.kafka_host@ == Seq::<char>::empty(),
            config.kafka_log_topic@ == Seq::<char>::empty(),
    {
        AppConfig {
            server_port: 0,
            api_token: String::new(),
            kafka_host: String::new(),
            kafka_log_topic: String::new(),
        }
    }
}

impl Clone for AppConfig {
    fn clone(&self) -> (copy: AppConfig)
        ensures
            copy.server_port == self.server_port,
            copy.api_token@ == self.api_token@,
            copy.kafka_host@ == self.kafka_host@,
            copy.kafka_log_topic@ == self.kafka_log_topic@,
    {
        AppConfig {
            server_port: self.server_port,
            api_token: self.api_token.clone(),
            kafka_host: self.kafka_host.clone(),
            kafka_log_topic: self.kafka_log_topic.clone(),
        }
    }
}

impl PartialEq for AppConfig {
    fn eq(&self, other: &AppConfig) -> (equal: bool) {
        self.server_port == other.server_port && self.api_token == other.api_token
            && self.kafka_host == other.kafka_host && self.kafka_log_topic
            == other.kafka_log_topic
    }
}

impl Eq for AppConfig {

}

impl PartialEqSpecImpl for AppConfig {
    open spec fn obeys_eq_spec() -> bool {
        true
    }

    open spec fn eq_spec(&self, other: &AppConfig) -> bool {
        self.server_port == other.server_port && self.api_token@ == other.api_token@
            && self.kafka_host@ == other.kafka_host@ && self.kafka_log_topic@
            == other.kafka_log_topic@
    }
}

} // verus!
