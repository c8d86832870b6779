use durable_streams_kafka_bridge::bridge::{
    handle_checkpoint, run_stream, BridgeError, Forwarder, Forwarding, Sending, StreamRuntime,
};
use durable_streams_kafka_bridge::client::DurableStreamsClient;
use durable_streams_kafka_bridge::config::{StreamConfig, TargetConfig, TopicMappingConfig};
use durable_streams_kafka_bridge::error::Error;
use durable_streams_kafka_bridge::kafka::{BridgeRecord, SinkError};
use durable_streams_kafka_bridge::offset_store::{OffsetStore, OffsetStoreError, StoredRead};
use durable_streams_kafka_bridge::protocol::sse::ControlPayload;
use durable_streams_kafka_bridge::text_map::TextMap;
use durable_streams_kafka_bridge::types::{Offset, StreamCheckpoint, SubscriptionEvent};
use reqwest::header::HeaderMap;
use serde_json::Value;

fn decode(text: &str) -> Result<ControlPayload, String> {
    let value: Value = serde_json::from_str(text).map_err(|error| error.to_string())?;
    let offset = value.get("streamNextOffset").and_then(Value::as_str);
    Ok(ControlPayload {
        stream_next_offset: offset.ok_or("missing field `streamNextOffset`")?.to_string(),
        stream_cursor: value.get("streamCursor").and_then(Value::as_str).map(str::to_string),
        up_to_date: value.get("upToDate").and_then(Value::as_bool),
        stream_closed: value.get("streamClosed").and_then(Value::as_bool),
    })
}

fn orders() -> StreamRuntime {
    StreamRuntime {
        path: "/v1/stream/orders".to_string(),
        topic: "orders".to_string(),
        start_offset: Offset::start(),
    }
}

fn empty_store() -> OffsetStore {
    OffsetStore::open("offsets.json", StoredRead::NotFound).unwrap()
}

fn checkpoint(offset: &str) -> StreamCheckpoint {
    StreamCheckpoint {
        next_offset: Offset::from(offset),
        cursor: None,
        up_to_date: false,
        stream_closed: false,
    }
}

/// Forwards what one connection delivers; every record is acknowledged.
fn forward(body: &str, store: &mut OffsetStore) -> Result<Vec<BridgeRecord>, BridgeError> {
    let client = DurableStreamsClient::new("http://localhost:4437").unwrap();
    let (mut forwarder, mut subscription) = run_stream(&client, orders(), store)?;
    subscription.connected(&HeaderMap::new());
    let mut events = subscription.chunk(body.as_bytes(), &decode).map_err(BridgeError::Client)?;
    events.extend(subscription.body_ended(&decode).map_err(BridgeError::Client)?);
    let mut sent = vec![];
    for event in events {
        forwarder = match forwarder.event(Ok(event))? {
            Forwarding::Reading(forwarder) => forwarder,
            Forwarding::Sending(sending) => {
                sent.push(sending.record().clone());
                sending.settled(Ok(()), store)?.kept(Ok(()))?
            }
        };
    }
    forwarder.ended()?;
    Ok(sent)
}

fn reading(forwarder: Forwarder, event: SubscriptionEvent) -> Forwarder {
    match forwarder.event(Ok(event)) {
        Ok(Forwarding::Reading(forwarder)) => forwarder,
        other => panic!("expected to go on reading, got {other:?}"),
    }
}

fn sending(forwarder: Forwarder, event: SubscriptionEvent) -> Sending {
    match forwarder.event(Ok(event)) {
        Ok(Forwarding::Sending(sending)) => sending,
        other => panic!("expected a record, got {other:?}"),
    }
}

#[test]
fn checkpoint_persists_offset_after_send() {
    let mut store = empty_store();
    let payload = br#"{"id":"1"}"#.to_vec();
    let delivery = handle_checkpoint(&orders(), &checkpoint("o9"), payload).unwrap();
    assert_eq!(delivery.record().key, "/v1/stream/orders:o9");
    assert_eq!(delivery.record().payload, br#"{"id":"1"}"#);
    assert_eq!(store.load("/v1/stream/orders"), None);
    assert_eq!(delivery.settled(Ok(()), &mut store).unwrap().len(), 3);
    assert_eq!(store.load("/v1/stream/orders"), Some(Offset::from("o9")));
    assert!(handle_checkpoint(&orders(), &checkpoint("o9"), vec![]).is_none());
}

#[test]
fn stream_runtime_uses_bridge_level_default_topic() {
    let runtime = StreamRuntime::from_config(
        &StreamConfig {
            path: "/v1/stream/docs/1".to_string(),
            topic: None,
            target: None,
            offset: None,
        },
        &TextMap::new(),
        &TopicMappingConfig { default_topic: Some("enterprise.documents".to_string()) },
    );

    assert_eq!(runtime.topic, "enterprise.documents");
}

#[test]
fn stream_runtime_uses_named_target_topic() {
    let mut targets = TextMap::new();
    targets.insert(
        "enterprise_documents".to_string(),
        TargetConfig { topic: "enterprise.documents".to_string() },
    );
    let runtime = StreamRuntime::from_config(
        &StreamConfig {
            path: "/v1/stream/docs/1".to_string(),
            topic: None,
            target: Some("enterprise_documents".to_string()),
            offset: None,
        },
        &targets,
        &TopicMappingConfig::default(),
    );

    assert_eq!(runtime.topic, "enterprise.documents");
}

#[test]
fn bridge_forwards_and_persists_checkpoint_offsets() {
    let mut store = empty_store();
    let sent = forward(
        "event: data\n\
         data: first\n\n\
         event: control\n\
         data: {\"streamNextOffset\":\"o5\",\"upToDate\":false}\n\n\
         event: data\n\
         data: second\n\n\
         event: control\n\
         data: {\"streamNextOffset\":\"o11\",\"upToDate\":true,\"streamClosed\":true}\n\n",
        &mut store,
    )
    .unwrap();
    assert_eq!(sent.len(), 2);
    assert_eq!(sent[0].key, "/v1/stream/orders:o5");
    assert_eq!(sent[1].key, "/v1/stream/orders:o11");
    assert_eq!(sent[1].topic, "orders");
    assert_eq!(sent[1].next_offset, "o11");
    assert_eq!(store.load("/v1/stream/orders"), Some(Offset::from("o11")));

    let client = DurableStreamsClient::new("http://localhost:4437").unwrap();
    let (_, subscription) = run_stream(&client, orders(), &store).unwrap();
    assert_eq!(subscription.offset(), &Offset::from("o11"));
}

#[test]
fn bridge_combines_multiple_data_frames_before_checkpoint() {
    let sent = forward(
        "event: data\n\
         data: hello \n\n\
         event: data\n\
         data: world\n\n\
         event: control\n\
         data: {\"streamNextOffset\":\"o11\",\"upToDate\":true,\"streamClosed\":true}\n\n",
        &mut empty_store(),
    )
    .unwrap();
    assert_eq!(sent.len(), 1);
    assert_eq!(sent[0].payload, b"hello world");
}

#[test]
fn bare_checkpoints_are_passed_over() {
    let mut store = empty_store();
    let body = "event: control\ndata: {\"streamNextOffset\":\"o1\",\"streamClosed\":true}\n\n";
    assert_eq!(forward(body, &mut store).unwrap(), vec![]);
    assert_eq!(store.load("/v1/stream/orders"), None);
}

#[test]
fn a_refused_record_leaves_the_offset_alone() {
    let mut store = empty_store();
    store.save("/v1/stream/orders", &Offset::from("o3"));
    let full = || Err(SinkError::Message("full".to_string()));
    let delivery = handle_checkpoint(&orders(), &checkpoint("o9"), b"x".to_vec()).unwrap();
    let error = delivery.settled(full(), &mut store).unwrap_err();
    assert!(matches!(&error, BridgeError::Sink(SinkError::Message(text)) if text == "full"));
    assert_eq!(store.load("/v1/stream/orders"), Some(Offset::from("o3")));

    let forwarder = reading(Forwarder::new(orders()), SubscriptionEvent::Data(b"x".to_vec()));
    let waiting = sending(forwarder, SubscriptionEvent::Checkpoint(checkpoint("o9")));
    assert_eq!(waiting.record().key, "/v1/stream/orders:o9");
    assert!(matches!(waiting.settled(full(), &mut store), Err(BridgeError::Sink(_))));
    assert_eq!(store.load("/v1/stream/orders"), Some(Offset::from("o3")));
}

#[test]
fn failures_end_the_forwarding() {
    let lost = Error::InvalidStreamPath { path: "x".to_string(), reason: "bad".to_string() };
    let result = Forwarder::new(orders()).event(Err(lost));
    assert!(matches!(result, Err(BridgeError::Client(Error::InvalidStreamPath { .. }))));

    let mut store = empty_store();
    let forwarder = reading(Forwarder::new(orders()), SubscriptionEvent::Data(b"x".to_vec()));
    let waiting = sending(forwarder, SubscriptionEvent::Checkpoint(checkpoint("o9")));
    let keeping = waiting.settled(Ok(()), &mut store).unwrap();
    assert_eq!(keeping.steps().len(), 3);
    let failed = keeping.steps()[1].failed("disk full".to_string());
    match keeping.kept(Err(failed)) {
        Err(BridgeError::OffsetStore(OffsetStoreError::Write { path, .. })) => {
            assert_eq!(path, "offsets.json.tmp");
        }
        other => panic!("expected a failed write, got {other:?}"),
    }
}

#[test]
fn data_without_a_checkpoint_is_reported() {
    let forwarder = reading(Forwarder::new(orders()), SubscriptionEvent::Data(b"x".to_vec()));
    let error = forwarder.ended().unwrap_err();
    assert_eq!(
        error.message(),
        "unexpected event sequence for `/v1/stream/orders`: stream ended with buffered data that \
         never received a checkpoint"
    );
    let waiting = sending(forwarder, SubscriptionEvent::Checkpoint(checkpoint("o1")));
    let keeping = waiting.settled(Ok(()), &mut empty_store()).unwrap();
    assert!(keeping.kept(Ok(())).unwrap().ended().is_ok());
}

#[test]
fn a_stream_without_an_absolute_path_is_not_forwarded() {
    let client = DurableStreamsClient::new("http://localhost:4437").unwrap();
    let stream = StreamRuntime { path: "orders".to_string(), ..orders() };
    match run_stream(&client, stream, &empty_store()) {
        Err(BridgeError::Client(Error::InvalidStreamPath { path, .. })) => {
            assert_eq!(path, "orders");
        }
        other => panic!("expected an invalid path, got {other:?}"),
    }
    let stream = StreamRuntime { start_offset: Offset::Now, ..orders() };
    let (_, subscription) = run_stream(&client, stream, &empty_store()).unwrap();
    assert_eq!(subscription.offset(), &Offset::Now);
    assert_eq!(BridgeError::Sink(SinkError::Message("full".to_string())).message(), "full");
}
