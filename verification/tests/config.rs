use durable_streams_kafka_bridge::config::{
    default_client_id, default_delivery_timeout_ms, default_preflight_timeout_ms,
    default_request_timeout_ms, default_sasl_mechanism, default_security_protocol, default_true,
    BridgeConfig, ConfigError, DiscoveryConfig, DurableStreamsConfig, KafkaAuthConfig, KafkaConfig,
    OffsetStoreConfig, PreflightConfig, StreamConfig, TargetConfig, TopicMappingConfig,
};
use durable_streams_kafka_bridge::text_map::TextMap;
use durable_streams_kafka_bridge::types::Offset;
use toml::Value;

fn text(table: &Value, key: &str) -> Option<String> {
    table.get(key).and_then(Value::as_str).map(str::to_string)
}

fn millis(table: &Value, key: &str) -> Option<u64> {
    table.get(key).and_then(Value::as_integer).map(|n| u64::try_from(n).unwrap())
}

/// Reads a configuration file as far as these tests need it.
fn parse(raw: &str) -> BridgeConfig {
    let root: Value = toml::from_str(raw).unwrap();
    let server = root.get("durable_streams").unwrap();
    let kafka = root.get("kafka").unwrap();
    let mut targets = TextMap::new();
    if let Some(table) = root.get("targets").and_then(Value::as_table) {
        for (name, target) in table {
            targets.insert(name.clone(), TargetConfig { topic: text(target, "topic").unwrap() });
        }
    }
    let mut streams = vec![];
    if let Some(items) = root.get("streams").and_then(Value::as_array) {
        for item in items {
            streams.push(StreamConfig {
                path: text(item, "path").unwrap(),
                topic: text(item, "topic"),
                target: text(item, "target"),
                offset: text(item, "offset"),
            });
        }
    }
    let flag = |table: &Value, key: &str| table.get(key).and_then(Value::as_bool);
    BridgeConfig {
        durable_streams: DurableStreamsConfig {
            base_url: text(server, "base_url").unwrap(),
            request_timeout_ms: millis(server, "request_timeout_ms")
                .unwrap_or(default_request_timeout_ms()),
        },
        kafka: KafkaConfig {
            bootstrap_servers: text(kafka, "bootstrap_servers").unwrap(),
            client_id: text(kafka, "client_id").unwrap_or(default_client_id()),
            delivery_timeout_ms: millis(kafka, "delivery_timeout_ms")
                .unwrap_or(default_delivery_timeout_ms()),
            auth: kafka.get("auth").map(|auth| KafkaAuthConfig {
                security_protocol: text(auth, "security_protocol")
                    .unwrap_or(default_security_protocol()),
                sasl_mechanism: text(auth, "sasl_mechanism").unwrap_or(default_sasl_mechanism()),
                username_env: text(auth, "username_env").unwrap(),
                password_env: text(auth, "password_env").unwrap(),
                ssl_ca_location: text(auth, "ssl_ca_location"),
            }),
        },
        targets,
        topic_mapping: root.get("topic_mapping").map_or(TopicMappingConfig::default(), |mapping| {
            TopicMappingConfig { default_topic: text(mapping, "default_topic") }
        }),
        offset_store: root.get("offset_store").map_or(OffsetStoreConfig::default(), |store| {
            OffsetStoreConfig { path: text(store, "path") }
        }),
        preflight: root.get("preflight").map_or(PreflightConfig::default(), |checks| {
            PreflightConfig {
                enabled: flag(checks, "enabled").unwrap_or(default_true()),
                timeout_ms: millis(checks, "timeout_ms").unwrap_or(default_preflight_timeout_ms()),
                require_topics_exist: flag(checks, "require_topics_exist").unwrap_or(default_true()),
            }
        }),
        streams,
        discovery: vec![],
    }
}

const COMMON: &str = r#"
[durable_streams]
base_url = "http://localhost:4437"

[kafka]
bootstrap_servers = "localhost:9092"
"#;

fn load(rest: &str) -> Result<BridgeConfig, ConfigError> {
    parse(&format!("{COMMON}{rest}")).accept("/tmp/bridge-tests/bridge.toml")
}

fn fault(config: BridgeConfig) -> String {
    match config.accept("bridge.toml") {
        Err(ConfigError::Validation(message)) => message,
        other => panic!("expected validation error, got {other:?}"),
    }
}

#[test]
fn config_defaults_offset_store_next_to_config() {
    let config = load("\n[[streams]]\npath = \"/v1/stream/orders\"\n").unwrap();
    assert_eq!(
        config.offset_store.path.unwrap(),
        "/tmp/bridge-tests/.durable-streams-kafka-bridge-offsets.json"
    );
    assert_eq!(config.topic_mapping.default_topic, None);
    assert_eq!(config.targets.len(), 0);
    assert!(config.preflight.enabled);
    assert!(config.preflight.require_topics_exist);
    assert_eq!(config.preflight.timeout_ms, 5_000);
    assert_eq!(config.durable_streams.request_timeout_ms, 30_000);
    assert_eq!(config.kafka.client_id, "durable-streams-kafka-bridge");
    assert_eq!(config.kafka.delivery_timeout_ms, 30_000);
}

#[test]
fn config_rejects_invalid_stream_paths() {
    let error = load("\n[[streams]]\npath = \"v1/stream/orders\"\n").unwrap_err();
    match error {
        ConfigError::Validation(message) => {
            assert!(message.contains("invalid stream path"));
            assert_eq!(
                message,
                "invalid stream path `v1/stream/orders` in config: invalid stream path \
                 `v1/stream/orders`: path must start with `/`"
            );
        }
        other => panic!("expected validation error, got {other:?}"),
    }
}

#[test]
fn config_loads_bridge_level_default_topic_mapping() {
    let config = load(
        r#"
[topic_mapping]
default_topic = "enterprise.documents"

[[streams]]
path = "/v1/stream/docs/1"
"#,
    )
    .unwrap();
    assert_eq!(config.topic_mapping.default_topic.as_deref(), Some("enterprise.documents"));
}

#[test]
fn config_loads_named_targets() {
    let config = load(
        r#"
[targets.enterprise_documents]
topic = "enterprise.documents"

[[streams]]
path = "/v1/stream/docs/1"
target = "enterprise_documents"
"#,
    )
    .unwrap();
    assert_eq!(
        config.targets.get("enterprise_documents").map(|t| t.topic.as_str()),
        Some("enterprise.documents")
    );
}

#[test]
fn config_loads_kafka_auth_settings() {
    let config = load(
        r#"
[kafka.auth]
username_env = "KAFKA_USERNAME"
password_env = "KAFKA_PASSWORD"

[[streams]]
path = "/v1/stream/docs/1"
"#,
    )
    .unwrap();
    let auth = config.kafka.auth.unwrap();
    assert_eq!(auth.security_protocol, "SASL_SSL");
    assert_eq!(auth.sasl_mechanism, "PLAIN");
    assert_eq!(auth.username_env, "KAFKA_USERNAME");
    assert_eq!(auth.password_env, "KAFKA_PASSWORD");
}

#[test]
fn config_loads_preflight_settings() {
    let config = load(
        r#"
[preflight]
enabled = true
timeout_ms = 2000
require_topics_exist = false

[[streams]]
path = "/v1/stream/docs/1"
"#,
    )
    .unwrap();
    assert_eq!(config.preflight.timeout_ms, 2000);
    assert!(!config.preflight.require_topics_exist);
}

#[test]
fn config_rejects_unknown_stream_targets() {
    let error = load("\n[[streams]]\npath = \"/v1/stream/docs/1\"\ntarget = \"enterprise_documents\"\n")
        .unwrap_err();
    match error {
        ConfigError::Validation(message) => {
            assert!(message.contains("unknown target"));
            assert_eq!(
                message,
                "stream `/v1/stream/docs/1` references unknown target `enterprise_documents`"
            );
        }
        other => panic!("expected validation error, got {other:?}"),
    }
}

fn one_stream() -> BridgeConfig {
    parse(&format!("{COMMON}\n[[streams]]\npath = \"/a\"\n"))
}

#[test]
fn the_first_fault_is_reported() {
    assert_eq!(
        fault(parse(COMMON)),
        "at least one `[[streams]]` or `[[discovery]]` entry is required"
    );

    let mut config = one_stream();
    for name in ["b", "c", "a"] {
        config.targets.insert(name.to_string(), TargetConfig { topic: " ".to_string() });
    }
    config.topic_mapping.default_topic = Some(String::new());
    assert_eq!(fault(config), "target `a` must define a non-empty topic");

    let auth = |user: &str, password: &str| KafkaAuthConfig {
        security_protocol: default_security_protocol(),
        sasl_mechanism: default_sasl_mechanism(),
        username_env: user.to_string(),
        password_env: password.to_string(),
        ssl_ca_location: None,
    };
    let mut config = one_stream();
    config.kafka.auth = Some(auth(" ", ""));
    assert_eq!(
        fault(config),
        "`kafka.auth.username_env` must define a non-empty env var name"
    );
    let mut config = one_stream();
    config.kafka.auth = Some(auth("U", "\n"));
    assert_eq!(
        fault(config),
        "`kafka.auth.password_env` must define a non-empty env var name"
    );
    let mut config = one_stream();
    config.topic_mapping.default_topic = Some("  ".to_string());
    assert_eq!(fault(config), "`topic_mapping.default_topic` must define a non-empty topic");
}

fn watching(control_stream: &str, path_field: &str) -> DiscoveryConfig {
    DiscoveryConfig {
        control_stream: control_stream.to_string(),
        filter_field: None,
        filter_value: None,
        path_field: path_field.to_string(),
        path_prefix: None,
        default_offset: None,
        topic_template: None,
    }
}

#[test]
fn control_streams_are_checked_first() {
    let mut config = parse(&format!("{COMMON}\n[[streams]]\npath = \"a\"\n"));
    config.discovery = vec![watching("/ok", "p"), watching("no", "p")];
    assert_eq!(
        fault(config),
        "invalid discovery control_stream `no`: invalid stream path `no`: path must start with `/`"
    );
    let mut config = parse(COMMON);
    config.discovery = vec![watching("/ok", "p")];
    assert!(config.accept("bridge.toml").is_ok());
    assert!(matches!(
        watching(" ", "p").validate(),
        Err(ConfigError::Validation(m)) if m == "`discovery.control_stream` must be non-empty"
    ));
    assert!(matches!(
        watching("/ok", " ").validate(),
        Err(ConfigError::Validation(m)) if m == "`discovery.path_field` must be non-empty"
    ));
}

#[test]
fn a_given_offset_store_is_kept() {
    let mut config = one_stream();
    config.offset_store.path = Some("elsewhere.json".to_string());
    let config = config.accept("dir/bridge.toml").unwrap();
    assert_eq!(config.offset_store.path.as_deref(), Some("elsewhere.json"));
}

#[test]
fn the_offset_store_stands_beside_the_configuration() {
    let name = ".durable-streams-kafka-bridge-offsets.json";
    let resolved = |path: &str| {
        let mut store = OffsetStoreConfig::default();
        store.resolve_default(path);
        store.path.unwrap()
    };
    assert_eq!(resolved("bridge.toml"), name);
    assert_eq!(resolved("etc/bridge/bridge.toml"), format!("etc/bridge/{name}"));
    assert_eq!(resolved("/bridge.toml"), format!("/{name}"));
    assert_eq!(resolved("/./bridge.toml"), format!("/{name}"));
    assert_eq!(resolved("./bridge.toml"), format!("./{name}"));
    assert_eq!(resolved("./etc/bridge.toml"), format!("./etc/{name}"));
    assert_eq!(resolved("../bridge.toml"), format!("../{name}"));
    assert_eq!(resolved("etc//bridge.toml"), format!("etc/{name}"));
    assert_eq!(resolved("etc/./bridge.toml"), format!("etc/{name}"));
    assert_eq!(resolved("etc/../bridge.toml"), format!("etc/../{name}"));
    assert_eq!(resolved("etc/bridge.toml/"), format!("etc/{name}"));
    assert_eq!(resolved("etc/bridge.toml/."), format!("etc/{name}"));
    assert_eq!(resolved("etc/.."), format!("etc/{name}"));
    assert_eq!(resolved(".."), name);
    assert_eq!(resolved("."), name);
    assert_eq!(resolved("./."), name);
    assert_eq!(resolved("/"), format!("./{name}"));
    assert_eq!(resolved("/etc:1/bridge.toml"), format!("/etc:1/{name}"));
    assert!(resolved("c:\\etc\\bridge.toml").ends_with(name));
    assert_eq!(resolved("/."), format!("./{name}"));
    assert_eq!(resolved(""), format!("./{name}"));
    let mut store = OffsetStoreConfig::default();
    store.resolve_in(None);
    assert_eq!(store.path, Some(format!("./{name}")));
}

#[test]
fn streams_start_where_they_are_told_to() {
    let mut config = one_stream();
    assert_eq!(config.streams[0].start_offset(), Offset::Start);
    config.streams[0].offset = Some("start".to_string());
    assert_eq!(config.streams[0].start_offset(), Offset::Start);
    config.streams[0].offset = Some("now".to_string());
    assert_eq!(config.streams[0].start_offset(), Offset::Now);
    let mut discovery = watching("/c", "p");
    assert_eq!(discovery.start_offset(), Offset::Start);
    discovery.default_offset = Some("o3".to_string());
    assert_eq!(discovery.start_offset(), Offset::from("o3"));
}

#[test]
fn faults_are_put_in_words() {
    let path = "bridge.toml".to_string();
    let error = ConfigError::Read { path: path.clone(), source: "gone".to_string() };
    assert_eq!(error.message(), "failed to read config file `bridge.toml`");
    let error = ConfigError::Parse { path, source: "bad".to_string() };
    assert_eq!(error.message(), "failed to parse config file `bridge.toml`");
    assert_eq!(ConfigError::Validation("x".to_string()).message(), "x");
}
