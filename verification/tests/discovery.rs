use durable_streams_kafka_bridge::bridge::{BridgeError, StreamRuntime};
use durable_streams_kafka_bridge::client::DurableStreamsClient;
use durable_streams_kafka_bridge::config::DiscoveryConfig;
use durable_streams_kafka_bridge::discovery::{
    extract_paths_from_payload, get_dotted, process_discovery_event, resolve_discovered_path,
    run_discovery, sanitize_topic, topic_for_discovered_stream, ActivePaths, ControlStep,
    Discovery, WatchEvent, WatchStep,
};
use durable_streams_kafka_bridge::error::Error;
use durable_streams_kafka_bridge::offset_store::{OffsetStore, OffsetStoreError, StoredRead};
use durable_streams_kafka_bridge::protocol::sse::ControlPayload;
use durable_streams_kafka_bridge::types::{Offset, StreamCheckpoint, SubscriptionEvent};
use reqwest::header::HeaderMap;
use serde_json::Value;

fn decode(text: &str) -> Result<ControlPayload, String> {
    let value: Value = serde_json::from_str(text).map_err(|error| error.to_string())?;
    let offset = value.get("streamNextOffset").and_then(Value::as_str);
    Ok(ControlPayload {
        stream_next_offset: offset.ok_or("missing field `streamNextOffset`")?.to_string(),
        stream_cursor: value.get("streamCursor").and_then(Value::as_str).map(str::to_string),
        up_to_date: value.get("upToDate").and_then(Value::as_bool),
        stream_closed: value.get("streamClosed").and_then(Value::as_bool),
    })
}

fn json(text: &str) -> Value {
    serde_json::from_str(text).unwrap()
}

#[test]
fn dotted_happy_path() {
    let v = json(r#"{"metadata": {"streamPath": "slides/deck-1"}}"#);
    assert_eq!(get_dotted(&v, "metadata.streamPath"), Some(&json(r#""slides/deck-1""#)));
}

#[test]
fn dotted_missing_segment() {
    let v = json(r#"{"metadata": {"other": 1}}"#);
    assert_eq!(get_dotted(&v, "metadata.streamPath"), None);
}

#[test]
fn dotted_non_object_traversal() {
    let v = json(r#"{"metadata": "not-an-object"}"#);
    assert_eq!(get_dotted(&v, "metadata.streamPath"), None);
}

#[test]
fn dotted_empty_path_returns_root() {
    let v = json(r#"{"a": 1}"#);
    assert_eq!(get_dotted(&v, ""), Some(&v));
}

#[test]
fn dotted_paths_keep_empty_keys() {
    let v = json(r#"{"a": {"": {"b": true}}}"#);
    assert_eq!(get_dotted(&v, "a..b"), Some(&json("true")));
    assert_eq!(get_dotted(&v, "a."), Some(&json(r#"{"b": true}"#)));
    assert_eq!(get_dotted(&v, "."), None);
    assert_eq!(get_dotted(&json("[1]"), "0"), None);
}

#[test]
fn resolve_with_prefix() {
    assert_eq!(
        resolve_discovered_path("slides/deck-1", Some("/v1/stream/")),
        "/v1/stream/slides/deck-1"
    );
}

#[test]
fn resolve_without_prefix() {
    assert_eq!(
        resolve_discovered_path("/v1/stream/slides/deck-1", None),
        "/v1/stream/slides/deck-1"
    );
}

#[test]
fn topic_template_substitution() {
    assert_eq!(
        topic_for_discovered_stream("/v1/stream/slides/deck-1", Some("durable-streams.{path}")),
        "durable-streams..v1.stream.slides.deck-1"
    );
}

#[test]
fn topic_template_with_plain_path() {
    assert_eq!(
        topic_for_discovered_stream("slides/deck-1", Some("discovered.{path}")),
        "discovered.slides.deck-1"
    );
}

#[test]
fn topic_falls_back_to_default() {
    assert_eq!(
        topic_for_discovered_stream("/v1/stream/slides/deck-1", None),
        "durable-streams.v1.stream.slides.deck-1"
    );
}

#[test]
fn sanitize_replaces_slashes_and_special_chars() {
    assert_eq!(sanitize_topic("/foo/bar:baz"), "foo.bar-baz");
}

/// Reads the settings of a control stream.
fn config(raw: &str) -> DiscoveryConfig {
    let table: toml::Value = toml::from_str(raw).unwrap();
    let text = |key: &str| table.get(key).and_then(toml::Value::as_str).map(str::to_string);
    DiscoveryConfig {
        control_stream: text("control_stream").unwrap(),
        filter_field: text("filter_field"),
        filter_value: text("filter_value"),
        path_field: text("path_field").unwrap(),
        path_prefix: text("path_prefix"),
        default_offset: text("default_offset"),
        topic_template: text("topic_template"),
    }
}

#[test]
fn discovery_config_rejects_empty_control_stream() {
    let config = config("control_stream = \"\"\npath_field = \"metadata.streamPath\"");
    let err = config.validate();
    assert!(err.is_err());
}

#[test]
fn discovery_config_rejects_empty_path_field() {
    let config = config("control_stream = \"/v1/stream/admin/activity\"\npath_field = \"\"");
    let err = config.validate();
    assert!(err.is_err());
}

#[test]
fn discovery_config_rejects_non_absolute_control_stream() {
    let config =
        config("control_stream = \"v1/stream/admin/activity\"\npath_field = \"metadata.streamPath\"");
    let err = config.validate();
    assert!(err.is_err());
}

#[test]
fn discovery_config_accepts_valid_config() {
    let config = config(
        r#"
        control_stream = "/v1/stream/admin/activity"
        path_field = "metadata.streamPath"
        filter_field = "kind"
        filter_value = "stream-created"
        path_prefix = "/v1/stream/"
        topic_template = "discovered.{path}"
        "#,
    );
    assert!(config.validate().is_ok());
}

fn array_test_config() -> DiscoveryConfig {
    config(
        r#"
        control_stream = "/v1/stream/admin/activity"
        filter_field = "resourceType"
        filter_value = "deck"
        path_field = "metadata.streamPath"
        path_prefix = "/v1/stream/"
        "#,
    )
}

#[test]
fn array_payload_with_matching_event_spawns() {
    let config = array_test_config();
    let payload = br#"[{"resourceType":"deck","metadata":{"streamPath":"slides/abc"}}]"#;
    let paths = extract_paths_from_payload(payload, &config);
    assert_eq!(paths, vec!["/v1/stream/slides/abc"]);
}

#[test]
fn array_payload_with_mixed_events_spawns_only_matches() {
    let config = array_test_config();
    let payload = br#"[
        {"resourceType":"deck","metadata":{"streamPath":"slides/abc"}},
        {"resourceType":"document","metadata":{"streamPath":"docs/xyz"}}
    ]"#;
    let paths = extract_paths_from_payload(payload, &config);
    assert_eq!(paths, vec!["/v1/stream/slides/abc"]);
}

#[test]
fn object_payload_still_works() {
    let config = array_test_config();
    let payload = br#"{"resourceType":"deck","metadata":{"streamPath":"slides/abc"}}"#;
    let paths = extract_paths_from_payload(payload, &config);
    assert_eq!(paths, vec!["/v1/stream/slides/abc"]);
}

#[test]
fn empty_array_is_noop() {
    let config = array_test_config();
    let payload = b"[]";
    let paths = extract_paths_from_payload(payload, &config);
    assert!(paths.is_empty());
}

#[test]
fn each_event_of_a_payload_is_decided() {
    let mut config = array_test_config();
    config.path_prefix = None;
    let payload = br#"[
        {"resourceType":"deck","metadata":{"streamPath":"/a"}},
        {"resourceType":"deck","metadata":{"streamPath":"/a"}},
        {"resourceType":"deck","metadata":{"streamPath":7}},
        {"resourceType":"deck","metadata":{"streamPath":"b"}},
        {"resourceType":7},
        "text"
    ]"#;
    let mut active = ActivePaths::new();
    let found = process_discovery_event(payload, &config, &mut active).unwrap();
    assert_eq!(found.len(), 6);
    assert!(matches!(&found[0], Discovery::Spawn(runtime) if runtime.path == "/a"));
    assert!(matches!(&found[1], Discovery::AlreadyActive));
    assert!(matches!(&found[2], Discovery::MissingPath));
    assert!(matches!(&found[3], Discovery::InvalidPath { path, .. } if path == "b"));
    assert!(matches!(&found[4], Discovery::Filtered));
    assert!(matches!(&found[5], Discovery::Filtered));
    assert!(active.contains("/a"));
    assert!(!active.contains("b"));
}

#[test]
fn half_a_filter_is_no_filter() {
    let mut config = array_test_config();
    config.filter_value = None;
    let paths = extract_paths_from_payload(br#"{"metadata":{"streamPath":"x"}}"#, &config);
    assert_eq!(paths, vec!["/v1/stream/x"]);
}

#[test]
fn configured_streams_are_active_from_the_start() {
    let runtimes = vec![StreamRuntime {
        path: "/v1/stream/slides/abc".to_string(),
        topic: "t".to_string(),
        start_offset: Offset::Start,
    }];
    let mut active = ActivePaths::of(&runtimes);
    let payload = br#"{"resourceType":"deck","metadata":{"streamPath":"slides/abc"}}"#;
    let found = process_discovery_event(payload, &array_test_config(), &mut active).unwrap();
    assert!(matches!(&found[0], Discovery::AlreadyActive));
}

fn discovery_config(control_stream: &str) -> DiscoveryConfig {
    config(&format!(
        r#"
        control_stream = "{control_stream}"
        filter_field = "kind"
        filter_value = "stream-created"
        path_field = "metadata.streamPath"
        path_prefix = "/v1/stream/"
        default_offset = "start"
        topic_template = "discovered.{{path}}"
        "#
    ))
}

const ACTIVITY: &str = "/v1/stream/admin/activity";

const CREATED_AND_DELETED: &str = "event: data\n\
    data: {\"kind\":\"stream-created\",\"metadata\":{\"streamPath\":\"slides/a\"}}\n\n\
    event: control\n\
    data: {\"streamNextOffset\":\"c1\",\"upToDate\":false}\n\n\
    event: data\n\
    data: {\"kind\":\"document-deleted\",\"metadata\":{\"streamPath\":\"slides/gone\"}}\n\n\
    event: control\n\
    data: {\"streamNextOffset\":\"c2\",\"upToDate\":false}\n\n\
    event: data\n\
    data: {\"kind\":\"stream-created\",\"metadata\":{\"streamPath\":\"doc/b\"}}\n\n\
    event: control\n\
    data: {\"streamNextOffset\":\"c3\",\"upToDate\":true,\"streamClosed\":true}\n\n";

/// Follows the control stream through one connection; gives the streams to forward, and the
/// number of payloads that were not JSON.
fn follow(
    config: DiscoveryConfig,
    body: &str,
    active: &mut ActivePaths,
    store: &mut OffsetStore,
) -> (Vec<StreamRuntime>, usize) {
    let client = DurableStreamsClient::new("http://localhost:4437").unwrap();
    let (mut watcher, mut subscription) = run_discovery(&client, config).unwrap();
    subscription.connected(&HeaderMap::new());
    let mut events = subscription.chunk(body.as_bytes(), &decode).unwrap();
    events.extend(subscription.body_ended(&decode).unwrap());
    let mut spawned = vec![];
    let mut malformed = 0;
    for event in events {
        if let Some(step) = watcher.event(event, active, store) {
            match step.found {
                Some(Ok(found)) => {
                    for discovery in found {
                        if let Discovery::Spawn(runtime) = discovery {
                            spawned.push(runtime);
                        }
                    }
                }
                Some(Err(_)) => malformed += 1,
                None => {}
            }
        }
    }
    (spawned, malformed)
}

fn empty_store() -> OffsetStore {
    OffsetStore::open("offsets.json", StoredRead::NotFound).unwrap()
}

#[test]
fn discovery_fails_only_with_its_subscription() {
    let mut active = ActivePaths::new();
    let mut store = empty_store();
    let client = DurableStreamsClient::new("http://localhost:4437").unwrap();
    let (mut watcher, _) = run_discovery(&client, discovery_config(ACTIVITY)).unwrap();
    let checkpoint = SubscriptionEvent::Checkpoint(StreamCheckpoint {
        next_offset: Offset::from("c1"),
        cursor: None,
        up_to_date: false,
        stream_closed: false,
    });
    let data = SubscriptionEvent::Data(b"not json".to_vec());
    let mut step = |event: WatchEvent| watcher.step(event, &mut active, &mut store);
    assert!(matches!(step(WatchEvent::Received(data)), Ok(WatchStep::Continue)));
    let save = match step(WatchEvent::Received(checkpoint)) {
        Ok(WatchStep::Act(ControlStep { found: Some(Err(_)), save })) => save,
        other => panic!("expected steps to take, got {other:?}"),
    };
    let failed = save[1].failed("disk full".to_string());
    assert!(matches!(
        step(WatchEvent::Kept(Err(failed))),
        Ok(WatchStep::Report(OffsetStoreError::Write { .. }))
    ));
    assert!(matches!(step(WatchEvent::Kept(Ok(()))), Ok(WatchStep::Continue)));
    assert!(matches!(step(WatchEvent::Ended), Ok(WatchStep::Done)));
    let lost = Error::InvalidStreamPath { path: "x".to_string(), reason: "bad".to_string() };
    assert!(matches!(step(WatchEvent::Failed(lost)), Err(BridgeError::Client(_))));
    assert_eq!(store.load(ACTIVITY), Some(Offset::from("c1")));
}

#[test]
fn discovery_spawns_forwarders_for_created_streams() {
    let mut active = ActivePaths::new();
    let mut store = empty_store();
    let (spawned, _) =
        follow(discovery_config(ACTIVITY), CREATED_AND_DELETED, &mut active, &mut store);
    let paths: Vec<&str> = spawned.iter().map(|runtime| runtime.path.as_str()).collect();
    assert_eq!(paths, vec!["/v1/stream/slides/a", "/v1/stream/doc/b"]);
    assert_eq!(spawned[0].topic, "discovered..v1.stream.slides.a");
    assert_eq!(spawned[0].start_offset, Offset::Start);
    assert!(!active.contains("/v1/stream/slides/gone"));
    assert_eq!(store.load(ACTIVITY), Some(Offset::from("c3")));
}

#[test]
fn discovery_ignores_filtered_events() {
    let mut active = ActivePaths::new();
    let mut config = discovery_config(ACTIVITY);
    config.filter_value = Some("no-such-kind".to_string());
    let (spawned, _) = follow(config, CREATED_AND_DELETED, &mut active, &mut empty_store());
    assert!(spawned.is_empty());
    assert!(!active.contains("/v1/stream/slides/a"));
}

#[test]
fn discovery_deduplicates_same_path() {
    let body = "event: data\n\
        data: {\"kind\":\"stream-created\",\"metadata\":{\"streamPath\":\"slides/dup\"}}\n\n\
        event: control\n\
        data: {\"streamNextOffset\":\"c1\",\"upToDate\":false}\n\n\
        event: data\n\
        data: {\"kind\":\"stream-created\",\"metadata\":{\"streamPath\":\"slides/dup\"}}\n\n\
        event: control\n\
        data: {\"streamNextOffset\":\"c2\",\"upToDate\":true,\"streamClosed\":true}\n\n";
    let mut active = ActivePaths::new();
    let (spawned, _) = follow(discovery_config(ACTIVITY), body, &mut active, &mut empty_store());
    assert_eq!(spawned.len(), 1);
    assert_eq!(spawned[0].path, "/v1/stream/slides/dup");
}

#[test]
fn discovery_skips_malformed_json_without_crashing() {
    let body = "event: data\n\
        data: NOT_JSON\n\n\
        event: control\n\
        data: {\"streamNextOffset\":\"c1\",\"upToDate\":false}\n\n\
        event: data\n\
        data: {\"kind\":\"stream-created\",\"metadata\":{\"streamPath\":\"slides/ok\"}}\n\n\
        event: control\n\
        data: {\"streamNextOffset\":\"c2\",\"upToDate\":true,\"streamClosed\":true}\n\n";
    let mut active = ActivePaths::new();
    let (spawned, malformed) =
        follow(discovery_config(ACTIVITY), body, &mut active, &mut empty_store());
    assert_eq!(malformed, 1);
    assert_eq!(spawned.len(), 1);
    assert_eq!(spawned[0].path, "/v1/stream/slides/ok");
}

#[test]
fn a_restart_discovers_the_streams_again() {
    let mut store = empty_store();
    let config = || discovery_config(ACTIVITY);
    let (first, _) = follow(config(), CREATED_AND_DELETED, &mut ActivePaths::new(), &mut store);
    assert!(store.load(ACTIVITY).is_some());
    let (again, _) = follow(config(), CREATED_AND_DELETED, &mut ActivePaths::new(), &mut store);
    assert_eq!(first, again);

    let client = DurableStreamsClient::new("http://localhost:4437").unwrap();
    let mut from_now = config();
    from_now.default_offset = Some("now".to_string());
    let (_, subscription) = run_discovery(&client, from_now).unwrap();
    assert_eq!(subscription.offset(), &Offset::Now);
    match run_discovery(&client, discovery_config("activity")) {
        Err(BridgeError::Client(_)) => {}
        other => panic!("expected an invalid path, got {other:?}"),
    }
}
