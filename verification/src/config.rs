//! Configuration records that the server stores and hands to collectors.

use vstd::prelude::*;

verus! {

/// Name of a collector profile.
pub type ProfileId = String;

/// Identifier an agent enrolls under.
pub type AgentId = String;

/// The Kafka cluster a collector publishes to.
#[derive(Debug, Clone, PartialEq, Eq)]
pub struct CollectorKafkaConfig {
    pub bootstrap_servers: Vec<String>,
}

/// Everything a collector needs to start publishing.
#[derive(Debug, Clone, PartialEq, Eq)]
pub struct CollectorConfig {
    pub version: i64,
    pub kafka: CollectorKafkaConfig,
    pub topics: TopicsConfig,
}

/// The topic each kind of network event is published to.
#[derive(Debug, Clone, PartialEq, Eq)]
pub struct TopicsConfig {
    pub connect: String,
    pub accept: String,
    pub close: String,
    pub bind: String,
    pub listen: String,
}

/// A named collector configuration.
#[derive(Debug, Clone, PartialEq, Eq)]
pub struct CollectorProfile {
    pub name: String,
    pub config: CollectorConfig,
}

/// A profile as the administrator defines it.
#[derive(Debug, Clone, PartialEq, Eq)]
pub struct Profile {
    pub name: String,
    pub kafka_cluster: String,
    pub version: i64,
    pub kafka_config: CollectorKafkaConfig,
    pub config: TopicsConfig,
    pub agents_enrolled: i64,
}

} // verus!
