use durable_streams_kafka_bridge::client::{ClientConfig, DurableStreamsClient};
use durable_streams_kafka_bridge::error::{Error, ErrorKind, StatusCode};
use durable_streams_kafka_bridge::protocol::sse::ControlPayload;
use durable_streams_kafka_bridge::retry::RetryPolicy;
use durable_streams_kafka_bridge::stream::{
    ask_to_read, ask_to_subscribe, DurableStream, Subscription,
};
use durable_streams_kafka_bridge::time::TimeSpan;
use durable_streams_kafka_bridge::transport::{
    BaseUrl, Delay, HttpRequest, HttpTransport, Method, NextStep, SendFailure,
};
use durable_streams_kafka_bridge::types::{
    Offset, ReadMode, ReadRequest, ReadResponse, StreamCheckpoint, StreamPath, SubscribeRequest,
    SubscriptionEvent,
};
use reqwest::header::{HeaderMap, HeaderName, HeaderValue};
use serde_json::Value;

struct Reply {
    status: u16,
    headers: HeaderMap,
    body: &'static [u8],
}

fn status(code: u16) -> StatusCode {
    StatusCode::from_u16(code).unwrap()
}

fn headers(pairs: &[(&'static str, &'static str)]) -> HeaderMap {
    let mut map = HeaderMap::new();
    for (name, value) in pairs {
        map.append(HeaderName::from_static(name), HeaderValue::from_static(value));
    }
    map
}

fn decode(text: &str) -> Result<ControlPayload, String> {
    let value: Value = serde_json::from_str(text).map_err(|error| error.to_string())?;
    let offset = value.get("streamNextOffset").and_then(Value::as_str);
    Ok(ControlPayload {
        stream_next_offset: offset.ok_or("missing field `streamNextOffset`")?.to_string(),
        stream_cursor: value.get("streamCursor").and_then(Value::as_str).map(str::to_string),
        up_to_date: value.get("upToDate").and_then(Value::as_bool),
        stream_closed: value.get("streamClosed").and_then(Value::as_bool),
    })
}

fn orders() -> DurableStream {
    let client = DurableStreamsClient::new("http://localhost:4437").unwrap();
    client.stream("/v1/stream/orders").unwrap()
}

/// Sends the read until a reply settles it; gives the outcome, the number of requests and the
/// waits between them.
fn read_from(
    stream: &DurableStream,
    replies: Vec<Reply>,
) -> (Result<ReadResponse, Error>, usize, Vec<Delay>) {
    let request = stream.read_request(&ReadRequest::default()).unwrap();
    let path = stream.path().as_str();
    let mut attempts = stream.transport().execute_with_retry("GET", path, request.method);
    let mut waits = vec![];
    let mut sent = 0;
    for reply in replies {
        sent += 1;
        assert_eq!(attempts.number(), sent);
        if status(reply.status).is_success() {
            return (stream.read(&reply.headers, reply.body.to_vec()), sent, waits);
        }
        match attempts.rejected(status(reply.status), &reply.headers, reply.body) {
            NextStep::Retry(delay) => waits.push(delay),
            NextStep::Fail(error) => return (Err(error), sent, waits),
        }
    }
    panic!("no reply settled the request");
}

fn caught_up(body: &'static [u8], next: &'static str) -> Reply {
    Reply {
        status: 200,
        headers: headers(&[
            ("content-type", "text/plain"),
            ("stream-next-offset", next),
            ("stream-up-to-date", "true"),
            ("etag", "\"-1:o11\""),
        ]),
        body,
    }
}

#[test]
fn metadata_and_catch_up_read_expose_typed_protocol_state() {
    let stream = orders();
    let request = stream.metadata_request().unwrap();
    assert_eq!(request.method, Method::Head);
    assert_eq!(request.url, "http://localhost:4437/v1/stream/orders");
    assert_eq!(request.query, vec![]);
    assert_eq!(request.timeout, Some(TimeSpan::from_secs(30)));

    let metadata = stream
        .metadata(&headers(&[
            ("content-type", "text/plain"),
            ("stream-next-offset", "o11"),
            ("etag", "\"-1:o11\""),
        ]))
        .unwrap();
    assert_eq!(metadata.content_type.as_deref(), Some("text/plain"));
    assert_eq!(metadata.next_offset, Offset::from("o11"));
    assert!(!metadata.stream_closed);

    let (response, sent, _) = read_from(&stream, vec![caught_up(b"hello world", "o11")]);
    let response = response.unwrap();
    assert_eq!(sent, 1);
    assert_eq!(response.bytes, b"hello world");
    assert_eq!(response.next_offset, Offset::from("o11"));
    assert!(response.up_to_date);
    assert_eq!(response.etag.as_deref(), Some("\"-1:o11\""));
}

#[test]
fn long_poll_forwards_cursor_and_resumes_from_offset() {
    let stream = orders();
    let request = stream
        .read_request(&ReadRequest {
            offset: Offset::from("o6"),
            mode: ReadMode::LongPoll,
            cursor: Some("cursor-1".to_string()),
        })
        .unwrap();
    assert_eq!(
        request.query,
        vec![
            ("offset".to_string(), "o6".to_string()),
            ("live".to_string(), "long-poll".to_string()),
            ("cursor".to_string(), "cursor-1".to_string()),
        ]
    );

    let response = stream
        .read(
            &headers(&[
                ("stream-next-offset", "o11"),
                ("stream-up-to-date", "true"),
                ("stream-cursor", "cursor-2"),
            ]),
            b"after".to_vec(),
        )
        .unwrap();
    assert_eq!(response.bytes, b"after");
    assert_eq!(response.cursor.as_deref(), Some("cursor-2"));
}

#[test]
fn a_catch_up_read_asks_for_the_offset_only() {
    let request = orders().read_request(&ReadRequest::default()).unwrap();
    assert_eq!(request.query, vec![("offset".to_string(), "-1".to_string())]);
    assert_eq!(request.method, Method::Get);
    assert_eq!(request.timeout, Some(TimeSpan::from_secs(30)));
}

#[test]
fn queries_are_added_to_any_request() {
    let mut request = HttpRequest::new(Method::Get, "http://x/".to_string());
    assert_eq!(request.timeout, None);
    ask_to_read(&mut request, &ReadRequest::default());
    ask_to_subscribe(&mut request, &Offset::Now);
    let names: Vec<&str> = request.query.iter().map(|(name, _)| name.as_str()).collect();
    assert_eq!(names, vec!["offset", "offset", "live"]);
}

#[test]
fn retries_transient_get_failures() {
    let unavailable = || Reply { status: 503, headers: HeaderMap::new(), body: b"" };
    let replies = vec![unavailable(), unavailable(), caught_up(b"retry-me", "o8")];
    let (response, sent, waits) = read_from(&orders(), replies);
    assert_eq!(response.unwrap().bytes, b"retry-me");
    assert_eq!(sent, 3);
    assert!(matches!(waits[0], Delay::Jittered(limit) if limit == TimeSpan::from_millis(100)));
    assert!(matches!(waits[1], Delay::Jittered(limit) if limit == TimeSpan::from_millis(200)));
}

#[test]
fn gives_up_after_the_last_attempt() {
    let unavailable = || Reply { status: 500, headers: HeaderMap::new(), body: b"down" };
    let replies = vec![unavailable(), unavailable(), unavailable(), unavailable(), unavailable()];
    let (response, sent, waits) = read_from(&orders(), replies);
    assert_eq!(sent, 4);
    assert_eq!(waits.len(), 3);
    assert_eq!(
        response.unwrap_err().message(),
        "HTTP 500 Internal Server Error (InternalServerError) during GET /v1/stream/orders: down"
    );
}

#[test]
fn a_request_that_writes_is_sent_once() {
    let stream = orders();
    let mut attempts = stream.transport().execute_with_retry("POST", "/a", Method::Post);
    match attempts.rejected(status(503), &HeaderMap::new(), b"") {
        NextStep::Fail(Error::Http(error)) => assert_eq!(error.kind, ErrorKind::ServiceUnavailable),
        other => panic!("expected a failure, got {other:?}"),
    }
}

#[test]
fn a_policy_without_attempts_still_sends_once() {
    let config = ClientConfig {
        retry_policy: RetryPolicy { max_attempts: 0, ..RetryPolicy::default() },
        ..ClientConfig::default()
    };
    let client = DurableStreamsClient::with_config("http://localhost", config).unwrap();
    let mut attempts = client.transport().execute_with_retry("GET", "/a", Method::Get);
    assert!(matches!(attempts.rejected(status(503), &HeaderMap::new(), b""), NextStep::Fail(_)));
}

fn take(events: &mut Vec<SubscriptionEvent>, subscription: &mut Subscription, chunk: &[u8]) {
    events.extend(subscription.chunk(chunk, &decode).unwrap());
}

#[test]
fn subscribe_reconnects_until_stream_closes() {
    let mut subscription = orders().subscribe(SubscribeRequest::default());
    let mut events = vec![];

    let request = subscription.request().unwrap();
    assert_eq!(request.method, Method::Get);
    assert_eq!(request.timeout, None);
    assert_eq!(
        request.query,
        vec![
            ("offset".to_string(), "-1".to_string()),
            ("live".to_string(), "sse".to_string()),
        ]
    );
    subscription.connected(&headers(&[("content-type", "text/event-stream")]));
    take(&mut events, &mut subscription, b"event: data\ndata: first\n\n");
    take(
        &mut events,
        &mut subscription,
        b"event: control\ndata: {\"streamNextOffset\":\"o5\",\"streamCursor\":\"cursor-a\"}\n\n",
    );
    events.extend(subscription.body_ended(&decode).unwrap());
    assert!(!subscription.is_finished());
    assert_eq!(subscription.offset(), &Offset::from("o5"));

    let request = subscription.request().unwrap();
    assert_eq!(request.query[0], ("offset".to_string(), "o5".to_string()));
    subscription.connected(&headers(&[("content-type", "text/event-stream")]));
    take(&mut events, &mut subscription, b"event: data\ndata: second\n\n");
    take(
        &mut events,
        &mut subscription,
        b"event: control\ndata: {\"streamNextOffset\":\"o11\",\"streamClosed\":true}\n",
    );
    events.extend(subscription.body_ended(&decode).unwrap());
    assert!(subscription.is_finished());

    assert_eq!(events.len(), 4);
    assert_eq!(events[0], SubscriptionEvent::Data(b"first".to_vec()));
    assert_eq!(
        events[1],
        SubscriptionEvent::Checkpoint(StreamCheckpoint {
            next_offset: Offset::from("o5"),
            cursor: Some("cursor-a".to_string()),
            up_to_date: false,
            stream_closed: false,
        })
    );
    assert_eq!(events[2], SubscriptionEvent::Data(b"second".to_vec()));
    assert_eq!(
        events[3],
        SubscriptionEvent::Checkpoint(StreamCheckpoint {
            next_offset: Offset::from("o11"),
            cursor: None,
            up_to_date: true,
            stream_closed: true,
        })
    );
}

#[test]
fn a_new_connection_starts_with_an_empty_parser() {
    let mut subscription = orders().subscribe(SubscribeRequest { offset: Offset::Now });
    subscription.connected(&headers(&[("stream-sse-data-encoding", "BASE64")]));
    let events = subscription.chunk(b"event: data\ndata: AQ==\n\nevent: data\nda", &decode).unwrap();
    assert_eq!(events, vec![SubscriptionEvent::Data(vec![1])]);
    subscription.connected(&HeaderMap::new());
    let events = subscription.chunk(b"event: data\ndata: AQ==\n\n", &decode).unwrap();
    assert_eq!(events, vec![SubscriptionEvent::Data(b"AQ==".to_vec())]);
    assert_eq!(subscription.offset(), &Offset::Now);
    assert!(subscription.chunk(b"\xff\n", &decode).is_err());
    assert_eq!(subscription.stream().path().as_str(), "/v1/stream/orders");
}

#[test]
fn classifies_stream_closed_conflicts() {
    let reply = Reply {
        status: 409,
        headers: headers(&[("stream-closed", "true"), ("stream-next-offset", "o11")]),
        body: b"",
    };
    let (response, _, _) = read_from(&orders(), vec![reply]);
    match response.unwrap_err() {
        Error::Http(http_error) => {
            assert_eq!(http_error.kind, ErrorKind::StreamClosed);
            assert!(http_error.stream_closed);
            assert_eq!(http_error.next_offset.as_deref(), Some("o11"));
        }
        other => panic!("expected HTTP error, got {other:?}"),
    }
}

#[test]
fn invalid_stream_paths_are_rejected_without_panic() {
    let client = DurableStreamsClient::new("http://localhost:4437").unwrap();
    let error = client.stream("v1/stream/orders").unwrap_err();
    match error {
        Error::InvalidStreamPath { .. } => {}
        other => panic!("expected invalid path error, got {other:?}"),
    }

    let error = StreamPath::try_from("orders").unwrap_err();
    match error {
        Error::InvalidStreamPath { .. } => {}
        other => panic!("expected invalid path error, got {other:?}"),
    }
}

#[test]
fn head_does_not_retry_non_success_responses() {
    let stream = orders();
    let mut attempts = stream.transport().execute_with_retry("HEAD", "/v1/stream/orders", Method::Head);
    match attempts.rejected(status(404), &HeaderMap::new(), b"") {
        NextStep::Fail(Error::Http(http_error)) => assert_eq!(http_error.kind, ErrorKind::NotFound),
        other => panic!("expected HTTP error, got {other:?}"),
    }
    assert_eq!(attempts.number(), 1);
}

#[test]
fn retry_after_header_is_respected() {
    let limited = Reply {
        status: 429,
        headers: headers(&[("retry-after", "1")]),
        body: b"retry later",
    };
    let (response, _, waits) =
        read_from(&orders(), vec![limited, caught_up(b"after-retry-after", "o17")]);
    assert_eq!(response.unwrap().bytes, b"after-retry-after");
    assert!(matches!(waits[0], Delay::Exactly(wait) if wait == TimeSpan::from_secs(1)));
}

fn failure(timeout: bool, connect: bool, request: bool) -> SendFailure {
    SendFailure { timeout, connect, request, source: "refused".to_string() }
}

#[test]
fn connection_failures_surface_as_transport_errors() {
    let stream = orders();
    let mut attempts = stream.transport().execute_with_retry("GET", "/v1/stream/orders", Method::Get);
    assert!(matches!(attempts.unsent(failure(false, true, false)), NextStep::Retry(_)));
    assert!(matches!(attempts.unsent(failure(true, false, false)), NextStep::Retry(_)));
    assert!(matches!(attempts.unsent(failure(false, false, true)), NextStep::Retry(_)));
    match attempts.unsent(failure(false, true, false)) {
        NextStep::Fail(error) => assert_eq!(
            error.message(),
            "HTTP transport error during GET /v1/stream/orders: refused"
        ),
        other => panic!("expected transport error, got {other:?}"),
    }
    let mut attempts = stream.transport().execute_with_retry("GET", "/a", Method::Get);
    assert!(matches!(
        attempts.unsent(failure(false, false, false)),
        NextStep::Fail(Error::Transport { .. })
    ));
    assert!(matches!(attempts.body_lost("cut".to_string()), Error::Transport { .. }));
    assert_eq!(
        stream.body_lost("cut".to_string()).message(),
        "HTTP transport error during GET /v1/stream/orders: cut"
    );
}

#[test]
fn base_urls_have_to_be_absolute() {
    match DurableStreamsClient::new("localhost") {
        Err(Error::InvalidBaseUrl { url, source }) => {
            assert_eq!(url, "localhost");
            assert_eq!(source, "relative URL without a base");
        }
        other => panic!("expected an invalid URL, got {other:?}"),
    }
    let error = DurableStreamsClient::new("localhost").unwrap_err();
    assert_eq!(error.message(), "invalid durable streams base URL `localhost`");
}

#[test]
fn paths_are_resolved_against_the_base_url() {
    let client = DurableStreamsClient::new("HTTP://Example.com/base?q=1").unwrap();
    let transport = client.transport();
    assert_eq!(transport.url_for("/v1/s t").unwrap(), "http://example.com/v1/s%20t");
    assert_eq!(transport.user_agent(), Some("durable-streams-client/0.2.3"));
    match transport.url_for("http://[") {
        Err(Error::InvalidBaseUrl { url, .. }) => {
            assert_eq!(url, "http://example.com/base?q=1 + http://[");
        }
        other => panic!("expected an invalid URL, got {other:?}"),
    }
    let error = transport.build_failure("no TLS".to_string());
    assert_eq!(
        error.message(),
        "HTTP transport error during build-client http://example.com/base?q=1: no TLS"
    );
}

#[test]
fn results_of_other_crates_are_mapped() {
    let base = BaseUrl::from_parsed("x", Ok("http://x/".to_string())).unwrap();
    let transport = HttpTransport::new(base, ClientConfig::default());
    let error = transport.url_from_joined("/p", Err("bad".to_string())).unwrap_err();
    assert_eq!(error.message(), "invalid durable streams base URL `http://x/ + /p`");
    assert!(BaseUrl::from_parsed("x", Err("bad".to_string())).is_err());
    assert_eq!(BaseUrl::parse("http://a").unwrap().text, "http://a/");
}

#[test]
fn waits_double_up_to_the_limit() {
    let policy = RetryPolicy::default();
    assert_eq!(policy.max_attempts, 4);
    assert_eq!(policy.capped_backoff(0), TimeSpan::from_millis(100));
    assert_eq!(policy.capped_backoff(1), TimeSpan::from_millis(100));
    assert_eq!(policy.capped_backoff(3), TimeSpan::from_millis(400));
    assert_eq!(policy.capped_backoff(5), TimeSpan::from_millis(1600));
    assert_eq!(policy.capped_backoff(6), TimeSpan::from_secs(2));
    assert_eq!(policy.capped_backoff(usize::MAX), TimeSpan::from_secs(2));
}
