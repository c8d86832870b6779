use durable_streams_kafka_bridge::config::KafkaAuthConfig;
use durable_streams_kafka_bridge::kafka::{
    producer_settings, resolve_auth, sink_settings, BridgeRecord, SinkError, TopicCheck,
};
use std::collections::BTreeMap;

fn auth_config() -> KafkaAuthConfig {
    KafkaAuthConfig {
        security_protocol: "SASL_SSL".to_string(),
        sasl_mechanism: "PLAIN".to_string(),
        username_env: "KAFKA_USERNAME".to_string(),
        password_env: "KAFKA_PASSWORD".to_string(),
        ssl_ca_location: Some("/tmp/ca.pem".to_string()),
    }
}

#[test]
fn resolves_auth_from_env_lookup() {
    let auth = auth_config();
    let env = BTreeMap::from([
        ("KAFKA_USERNAME".to_string(), "user".to_string()),
        ("KAFKA_PASSWORD".to_string(), "secret".to_string()),
    ]);

    let resolved = resolve_auth(&auth, |name: &str| env.get(name).cloned()).unwrap();
    assert_eq!(resolved.username, "user");
    assert_eq!(resolved.password, "secret");
    assert_eq!(resolved.ssl_ca_location.as_deref(), Some("/tmp/ca.pem"));
    assert_eq!(resolved.security_protocol, "SASL_SSL");
    assert_eq!(resolved.sasl_mechanism, "PLAIN");
}

#[test]
fn missing_variables_are_named() {
    let auth = auth_config();
    match resolve_auth(&auth, |_: &str| None) {
        Err(SinkError::MissingEnvVar { name }) => assert_eq!(name, "KAFKA_USERNAME"),
        other => panic!("expected a missing variable, got {other:?}"),
    }
    let only_user = |name: &str| (name == "KAFKA_USERNAME").then_some("user".to_string());
    let error = resolve_auth(&auth, only_user).unwrap_err();
    assert_eq!(error.message(), "required Kafka auth env var `KAFKA_PASSWORD` was not set");
}

fn pair(name: &str, value: &str) -> (String, String) {
    (name.to_string(), value.to_string())
}

#[test]
fn settings_name_both_sides() {
    let common = vec![
        pair("bootstrap.servers", "localhost:9092"),
        pair("client.id", "bridge"),
        pair("acks", "all"),
    ];
    assert_eq!(producer_settings("localhost:9092", "bridge", None), common);
    let lookup = |name: &str| Some(format!("<{name}>"));
    let settings =
        sink_settings("localhost:9092", "bridge", Some(&auth_config()), lookup).unwrap();
    let mut expected = common.clone();
    expected.extend([
        pair("security.protocol", "SASL_SSL"),
        pair("sasl.mechanism", "PLAIN"),
        pair("sasl.username", "<KAFKA_USERNAME>"),
        pair("sasl.password", "<KAFKA_PASSWORD>"),
        pair("ssl.ca.location", "/tmp/ca.pem"),
    ]);
    assert_eq!(settings, expected);
    let nothing = |_: &str| None;
    assert_eq!(sink_settings("localhost:9092", "bridge", None, nothing).unwrap(), common);
    assert!(sink_settings("localhost:9092", "bridge", Some(&auth_config()), nothing).is_err());
}

#[test]
fn records_carry_their_origin() {
    let record = BridgeRecord {
        topic: "orders".to_string(),
        key: "/a:o1".to_string(),
        payload: vec![1],
        stream_path: "/a".to_string(),
        next_offset: "o1".to_string(),
    };
    assert_eq!(
        record.headers(),
        vec![
            ("durable-stream-path", b"/a".to_vec()),
            ("durable-stream-next-offset", b"o1".to_vec()),
        ]
    );
    assert_eq!(record.clone(), record);
}

#[test]
fn topics_are_looked_for_once_and_in_order() {
    let topics = vec!["b".to_string(), "a".to_string(), "b".to_string()];
    let mut check = TopicCheck::preflight(&topics, true);
    assert_eq!(check.next_topic(), Some("a"));
    check.listed(&vec!["x".to_string(), "a".to_string()]).unwrap();
    assert_eq!(check.next_topic(), Some("b"));
    let error = check.listed(&vec!["a".to_string()]).unwrap_err();
    assert_eq!(error.message(), "required Kafka topic `b` was not found during preflight");
    check.listed(&vec!["b".to_string()]).unwrap();
    assert_eq!(check.next_topic(), None);
    check.listed(&vec![]).unwrap();
    assert_eq!(TopicCheck::preflight(&topics, false).next_topic(), None);
}

#[test]
fn sink_failures_are_put_in_words() {
    let source = || "down".to_string();
    assert_eq!(
        SinkError::CreateProducer(source()).message(),
        "failed to create Kafka producer"
    );
    assert_eq!(SinkError::Deliver(source()).message(), "failed to deliver Kafka record");
    assert_eq!(SinkError::MetadataFetch(source()).message(), "failed to fetch Kafka metadata");
    assert_eq!(SinkError::Message(source()).message(), "down");
}
