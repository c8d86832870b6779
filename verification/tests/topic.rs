use durable_streams_kafka_bridge::config::{TargetConfig, TopicMappingConfig};
use durable_streams_kafka_bridge::text_map::TextMap;
use durable_streams_kafka_bridge::topic::{
    default_topic_for_stream, message_key, resolve_topic, TopicResolutionContext,
};
use durable_streams_kafka_bridge::types::Offset;

fn enterprise_targets() -> TextMap<TargetConfig> {
    let mut targets = TextMap::new();
    targets.insert(
        "enterprise_documents".to_string(),
        TargetConfig { topic: "enterprise.documents".to_string() },
    );
    targets
}

#[test]
fn uses_explicit_topic_when_provided() {
    assert_eq!(
        resolve_topic(
            "/v1/stream/orders",
            &TopicResolutionContext {
                explicit_topic: Some("orders"),
                target: None,
                targets: &TextMap::new(),
                topic_mapping: &TopicMappingConfig::default(),
            }
        ),
        "orders".to_string()
    );
}

#[test]
fn explicit_topic_wins_over_target() {
    let targets = enterprise_targets();
    assert_eq!(
        resolve_topic(
            "/v1/stream/orders",
            &TopicResolutionContext {
                explicit_topic: Some("orders"),
                target: Some("enterprise_documents"),
                targets: &targets,
                topic_mapping: &TopicMappingConfig::default(),
            }
        ),
        "orders".to_string()
    );
}

#[test]
fn uses_target_topic_when_present() {
    let targets = enterprise_targets();
    assert_eq!(
        resolve_topic(
            "/v1/stream/orders",
            &TopicResolutionContext {
                explicit_topic: None,
                target: Some("enterprise_documents"),
                targets: &targets,
                topic_mapping: &TopicMappingConfig::default(),
            }
        ),
        "enterprise.documents".to_string()
    );
}

#[test]
fn uses_bridge_level_default_topic_when_present() {
    assert_eq!(
        resolve_topic(
            "/v1/stream/orders",
            &TopicResolutionContext {
                explicit_topic: None,
                target: None,
                targets: &TextMap::new(),
                topic_mapping: &TopicMappingConfig {
                    default_topic: Some("enterprise.documents".to_string()),
                },
            }
        ),
        "enterprise.documents".to_string()
    );
}

#[test]
fn blank_topics_are_passed_over() {
    assert_eq!(
        resolve_topic(
            "/a",
            &TopicResolutionContext {
                explicit_topic: Some(" "),
                target: Some("missing"),
                targets: &enterprise_targets(),
                topic_mapping: &TopicMappingConfig { default_topic: Some("\t".to_string()) },
            }
        ),
        "durable-streams.a".to_string()
    );
}

#[test]
fn derives_topic_from_stream_path() {
    assert_eq!(
        default_topic_for_stream("/v1/stream/orders"),
        "durable-streams.v1.stream.orders".to_string()
    );
}

#[test]
fn sanitizes_invalid_topic_characters() {
    assert_eq!(
        default_topic_for_stream("/orders/tenant:alpha"),
        "durable-streams.orders.tenant-alpha".to_string()
    );
}

#[test]
fn the_root_has_a_topic_of_its_own() {
    assert_eq!(default_topic_for_stream("/"), "durable-streams.stream");
    assert_eq!(default_topic_for_stream(""), "durable-streams.stream");
    assert_eq!(default_topic_for_stream("/\u{e9}/_A-9."), "durable-streams.-._A-9.");
}

#[test]
fn keys_records_with_stream_and_offset() {
    assert_eq!(
        message_key("/v1/stream/orders", &Offset::from("o42")),
        "/v1/stream/orders:o42".to_string()
    );
}

#[test]
fn keys_differ_where_offsets_do() {
    assert_eq!(message_key("/a", &Offset::Start), "/a:-1");
    assert_ne!(message_key("/a", &Offset::from("o1")), message_key("/a", &Offset::from("o2")));
}
