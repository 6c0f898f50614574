use watch_watch::collector::{config_after_enrollment, enroll_request, EventKind};
use watch_watch::config::{CollectorConfig, CollectorKafkaConfig, CollectorProfile, TopicsConfig};
use watch_watch::kafka::{
    event_topic_names, topics_to_create, AdminKafkaConfig, ConsumerConfig, ProducerConfig,
};
use watch_watch::server::{register_response, send_collector_config, Server, ServerError};

fn profile() -> CollectorProfile {
    CollectorProfile {
        name: "production".to_string(),
        config: CollectorConfig {
            version: 1,
            kafka: CollectorKafkaConfig { bootstrap_servers: vec!["192.168.1.7:9092".to_string()] },
            topics: TopicsConfig {
                connect: "connect".to_string(),
                accept: "accept".to_string(),
                close: "close".to_string(),
                bind: "bind".to_string(),
                listen: "listen".to_string(),
            },
        },
    }
}

#[test]
fn error_responses() {
    assert_eq!(ServerError::Unauthorized.response_parts(), (401, "authentication failed\n"));
    assert_eq!(
        ServerError::Internal("db down".to_string()).response_parts(),
        (500, "internal server error\n")
    );
}

#[test]
fn listen_address() {
    let server = Server { addr: "0.0.0.0", port: 8092 };
    assert_eq!(server.address(), "0.0.0.0:8092");
}

#[test]
fn registration_answers() {
    assert_eq!(register_response(false, Some(profile())), Err(ServerError::Unauthorized));
    assert_eq!(
        register_response(true, None),
        Err(ServerError::Internal("Failed to register agent".to_string()))
    );
    assert_eq!(register_response(true, Some(profile())), Ok(profile()));
}

#[test]
fn config_push_is_not_offered() {
    assert_eq!(
        send_collector_config(),
        Err(ServerError::Internal("not yet implemented".to_string()))
    );
}

#[test]
fn client_settings() {
    let mut config = AdminKafkaConfig {
        bootstrap_servers: vec!["a:1".to_string(), "b:2".to_string()],
        consumer_config: None,
        producer_config: Some(ProducerConfig {
            key_value: vec![
                ("acks".to_string(), "all".to_string()),
                ("linger.ms".to_string(), "5".to_string()),
            ],
        }),
    };
    assert_eq!(config.bootstrap_list(), "a:1,b:2");
    assert_eq!(config.consumer_settings(), None);
    assert_eq!(
        config.producer_settings(),
        Some(vec![
            ("bootstrap_servers".to_string(), "a:1,b:2".to_string()),
            ("acks".to_string(), "all".to_string()),
        ])
    );
    config.consumer_config = Some(ConsumerConfig { key_value: vec![] });
    assert_eq!(config.consumer_settings(), None);
}

#[test]
fn topic_plans() {
    let topics = topics_to_create();
    assert_eq!(topics.len(), 1);
    assert_eq!(topics[0].name, "connect");
    assert_eq!(topics[0].partitions, 1);
    assert_eq!(topics[0].replication_factor, 1);
    assert_eq!(event_topic_names(), vec!["connect", "accept", "close", "bind", "listen"]);
}

#[test]
fn event_topics() {
    assert_eq!(EventKind::Connect.topic(), "connect");
    assert_eq!(EventKind::Accept.topic(), "accept");
    assert_eq!(EventKind::Close.topic(), "close");
    assert_eq!(EventKind::Bind.topic(), "bind");
    assert_eq!(EventKind::Listen.topic(), "listen");
}

#[test]
fn enrollment_request_text() {
    assert_eq!(
        enroll_request("srv:8092", "T", "A", "K"),
        "GET /enroll?token=T&agent_id=A&public_key=K HTTP/1.1\r\nHost: srv:8092\r\nConnection: close\r\n\r\n"
    );
}

#[test]
fn saved_collector_config() {
    let c = config_after_enrollment(profile(), "agent-7".to_string());
    assert_eq!(c.boot_strap_servers, vec!["192.168.1.7:9092".to_string()]);
    assert_eq!(c.agent_id, "agent-7");
}
