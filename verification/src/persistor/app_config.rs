//! Settings of the committer process.

use vstd::prelude::*;
use vstd::std_specs::cmp::PartialEqSpecImpl;

verus! {

/// Everything the committer is configured with.
#[derive(Debug)]
pub struct AppConfig {
    /// Address of the broker.
    pub kafka_host: String,
    /// The topic records are consumed from.
    pub kafka_log_topic: String,
}

impl Default for AppConfig {
    fn default() -> (config: AppConfig)
        ensures
            config.kafka_host@ == Seq::<char>::empty(),
            config.kafka_log_topic@ == Seq::<char>::empty(),
    {
        AppConfig { kafka_host: String::new(), kafka_log_topic: String::new() }
    }
}

impl Clone for AppConfig {
    fn clone(&self) -> (copy: AppConfig)
        ensures
            copy.kafka_host@ == self.kafka_host@,
            copy.kafka_log_topic@ == self.kafka_log_topic@,
    {
        AppConfig {
            kafka_host: self.kafka_host.clone(),
            kafka_log_topic: self.kafka_log_topic.clone(),
        }
    }
}

impl PartialEq for AppConfig {
    fn eq(&self, other: &AppConfig) -> (equal: bool) {
        self.kafka_host == other.kafka_host && self.kafka_log_topic == other.kafka_log_topic
    }
}

impl Eq for AppConfig {

}

impl PartialEqSpecImpl for AppConfig {
    open spec fn obeys_eq_spec() -> bool {
        true
    }

    open spec fn eq_spec(&self, other: &AppConfig) -> bool {
        self.kafka_host@ == other.kafka_host@ && self.kafka_log_topic@ == other.kafka_log_topic@
    }
}

} // verus!
