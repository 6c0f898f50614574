//! Kafka client settings and topic plans.

use vstd::prelude::*;
use vstd::string::StringExecFns;

use crate::text::{join_with, joined, texts_of};

verus! {

/// Extra settings for a consumer client.
#[derive(Debug, Clone, PartialEq, Eq)]
pub struct ConsumerConfig {
    pub key_value: Vec<(String, String)>,
}

/// Extra settings for a producer client.
#[derive(Debug, Clone, PartialEq, Eq)]
pub struct ProducerConfig {
    pub key_value: Vec<(String, String)>,
}

/// How the administrator reaches the cluster.
#[derive(Debug, Clone, PartialEq, Eq)]
pub struct AdminKafkaConfig {
    pub bootstrap_servers: Vec<String>,
    pub consumer_config: Option<ConsumerConfig>,
    pub producer_config: Option<ProducerConfig>,
}

/// A topic to create.
#[derive(Debug, Clone, PartialEq, Eq)]
pub struct AdminTopicConfig {
    pub name: String,
    pub partitions: i32,
    pub replication_factor: i32,
}

/// How a topic's partitions are replicated.
#[derive(Debug, Clone, PartialEq, Eq)]
pub enum Replication {
    Fixed(i32),
    Variable(Vec<Vec<i32>>),
}

/// The settings a client is created with: the joined bootstrap servers,
/// then the first configured pair. Clients are only created when at least
/// one pair is configured.
pub open spec fn client_settings(servers: Seq<String>, pairs: Seq<(String, String)>) -> Option<
    Seq<(Seq<char>, Seq<char>)>,
> {
    if pairs.len() == 0 {
        None
    } else {
        Some(
            seq![
                ("bootstrap_servers"@, joined(texts_of(servers), ","@)),
                (pairs[0].0@, pairs[0].1@),
            ],
        )
    }
}

/// The texts of a list of setting pairs.
pub open spec fn pairs_text(v: Seq<(String, String)>) -> Seq<(Seq<char>, Seq<char>)> {
    v.map_values(|p: (String, String)| (p.0@, p.1@))
}

fn settings_from(servers: &Vec<String>, pairs: &Vec<(String, String)>) -> (r: Option<
    Vec<(String, String)>,
>)
    ensures
        match client_settings(servers@, pairs@) {
            Some(s) => r matches Some(v) && pairs_text(v@) == s,
            None => r is None,
        },
{
    if pairs.len() == 0 {
        return None;
    }
    let mut v: Vec<(String, String)> = Vec::new();
    v.push((String::from_str("bootstrap_servers"), join_with(servers, ",")));
    let first = &pairs[0];
    v.push((first.0.clone(), first.1.clone()));
    assert(pairs_text(v@) =~= client_settings(servers@, pairs@)->0);
    Some(v)
}

impl AdminKafkaConfig {
    /// The bootstrap servers as one comma-separated list.
    pub fn bootstrap_list(&self) -> (r: String)
        ensures
            r@ == joined(texts_of(self.bootstrap_servers@), ","@),
    {
        join_with(&self.bootstrap_servers, ",")
    }

    /// The settings to create a consumer with, or `None` when no consumer
    /// can be created.
    pub fn consumer_settings(&self) -> (r: Option<Vec<(String, String)>>)
        ensures
            match self.consumer_config {
                None => r is None,
                Some(c) => match client_settings(self.bootstrap_servers@, c.key_value@) {
                    Some(s) => r matches Some(v) && pairs_text(v@) == s,
                    None => r is None,
                },
            },
    {
        match &self.consumer_config {
            Some(c) => settings_from(&self.bootstrap_servers, &c.key_value),
            None => None,
        }
    }

    /// The settings to create a producer with, or `None` when no producer
    /// can be created.
    pub fn producer_settings(&self) -> (r: Option<Vec<(String, String)>>)
        ensures
            match self.producer_config {
                None => r is None,
                Some(c) => match client_settings(self.bootstrap_servers@, c.key_value@) {
                    Some(s) => r matches Some(v) && pairs_text(v@) == s,
                    None => r is None,
                },
            },
    {
        match &self.producer_config {
            Some(c) => settings_from(&self.bootstrap_servers, &c.key_value),
            None => None,
        }
    }
}

/// The topics the administrator creates: `connect`, with one partition and
/// one replica.
pub fn topics_to_create() -> (r: Vec<AdminTopicConfig>)
    ensures
        r@.len() == 1,
        r@[0].name@ == "connect"@,
        r@[0].partitions == 1,
        r@[0].replication_factor == 1,
{
    let mut r: Vec<AdminTopicConfig> = Vec::new();
    r.push(AdminTopicConfig { name: String::from_str("connect"), partitions: 1, replication_factor: 1 });
    r
}

/// The event topics reported once topic creation succeeds.
pub fn event_topic_names() -> (r: Vec<String>)
    ensures
        texts_of(r@) == seq!["connect"@, "accept"@, "close"@, "bind"@, "listen"@],
{
    let mut r: Vec<String> = Vec::new();
    r.push(String::from_str("connect"));
    r.push(String::from_str("accept"));
    r.push(String::from_str("close"));
    r.push(String::from_str("bind"));
    r.push(String::from_str("listen"));
    assert(texts_of(r@) =~= seq!["connect"@, "accept"@, "close"@, "bind"@, "listen"@]);
    r
}

} // verus!
