use durable_streams_kafka_bridge::error::{Error, ErrorKind, StatusCode};
use durable_streams_kafka_bridge::protocol::headers::{
    classify, has_true_header, http_error, http_error_with_text, optional_string, parse_retry_after,
    require_offset,
};
use durable_streams_kafka_bridge::protocol::sse::{
    checkpoint_from, control_event, decoded_data, ControlPayload, SseParser,
};
use durable_streams_kafka_bridge::time::TimeSpan;
use durable_streams_kafka_bridge::types::{Offset, StreamCheckpoint, SubscriptionEvent};
use reqwest::header::{HeaderMap, HeaderName, HeaderValue};
use serde_json::Value;

fn decode(text: &str) -> Result<ControlPayload, String> {
    let value: Value = serde_json::from_str(text).map_err(|error| error.to_string())?;
    let offset = value.get("streamNextOffset").and_then(Value::as_str);
    Ok(ControlPayload {
        stream_next_offset: offset.ok_or("missing field `streamNextOffset`")?.to_string(),
        stream_cursor: value.get("streamCursor").and_then(Value::as_str).map(str::to_string),
        up_to_date: value.get("upToDate").and_then(Value::as_bool),
        stream_closed: value.get("streamClosed").and_then(Value::as_bool),
    })
}

fn status(code: u16) -> StatusCode {
    StatusCode::from_u16(code).unwrap()
}

fn headers(pairs: &[(&'static str, &'static [u8])]) -> HeaderMap {
    let mut map = HeaderMap::new();
    for (name, value) in pairs {
        map.append(HeaderName::from_static(name), HeaderValue::from_bytes(value).unwrap());
    }
    map
}

#[test]
fn parses_text_data_and_control_events() {
    let mut parser = SseParser::new();
    let payload = b"event: data\r\ndata: hello\r\n\r\nevent: control\r\ndata: {\"streamNextOffset\":\"o1\",\"upToDate\":true}\r\n\r\n";
    let events = parser.push(payload, "/stream", false, &decode).unwrap();
    assert_eq!(events.len(), 2);
    assert_eq!(events[0], SubscriptionEvent::Data(b"hello".to_vec()));
    assert_eq!(
        events[1],
        SubscriptionEvent::Checkpoint(StreamCheckpoint {
            next_offset: Offset::from("o1"),
            cursor: None,
            up_to_date: true,
            stream_closed: false,
        })
    );
}

#[test]
fn strips_inserted_newlines_before_base64_decode() {
    let mut parser = SseParser::new();
    let payload = b"event: data\ndata: AQID\ndata: BA==\n\n";
    let events = parser.push(payload, "/stream", true, &decode).unwrap();
    assert_eq!(events, vec![SubscriptionEvent::Data(vec![1, 2, 3, 4])]);
}

#[test]
fn chunks_may_be_cut_anywhere() {
    let whole: &[u8] = b"event: data\ndata: a\ndata: b\n\n: note\nid: 3\nevent: other\ndata: x\n\nevent: control\ndata: {\"streamNextOffset\":\"now\",\"streamClosed\":true,\"streamCursor\":\"c\"}\n\n";
    let expected = vec![
        SubscriptionEvent::Data(b"a\nb".to_vec()),
        SubscriptionEvent::Checkpoint(StreamCheckpoint {
            next_offset: Offset::Now,
            cursor: Some("c".to_string()),
            up_to_date: true,
            stream_closed: true,
        }),
    ];
    let mut cut = 0;
    while cut <= whole.len() {
        let mut parser = SseParser::new();
        let mut events = parser.push(&whole[..cut], "/s", false, &decode).unwrap();
        events.extend(parser.push(&whole[cut..], "/s", false, &decode).unwrap());
        assert_eq!(events, expected);
        cut += 1;
    }
}

#[test]
fn a_cut_inside_a_line_ending_ends_the_event() {
    let mut parser = SseParser::new();
    let first = parser.push(b"event: data\r\ndata: x\r", "/s", false, &decode).unwrap();
    assert_eq!(first, vec![]);
    let second = parser.push(b"\ndata: y\r\n\r\n", "/s", false, &decode).unwrap();
    assert_eq!(second, vec![SubscriptionEvent::Data(b"x".to_vec())]);
}

#[test]
fn the_end_of_the_input_completes_an_event() {
    let mut parser = SseParser::default();
    assert_eq!(parser.push(b"event:data\ndata:  y\n", "/s", false, &decode).unwrap(), vec![]);
    let events = parser.finish("/s", false, &decode).unwrap();
    assert_eq!(events, vec![SubscriptionEvent::Data(b" y".to_vec())]);
    assert_eq!(parser.finish("/s", false, &decode).unwrap(), vec![]);
}

#[test]
fn broken_events_are_reported() {
    let mut parser = SseParser::new();
    let error = parser.push(b"event: data\ndata: *\n\n", "/s", true, &decode).unwrap_err();
    match error {
        Error::InvalidSse { path, reason } => {
            assert_eq!(path, "/s");
            assert!(reason.starts_with("invalid base64 SSE data: Invalid symbol 42"));
        }
        other => panic!("expected an invalid event, got {other:?}"),
    }
    let error = parser.push(b"event: control\ndata: {}\n\n", "/s", false, &decode).unwrap_err();
    assert_eq!(
        error.message(),
        "invalid SSE event on /s: invalid control event JSON: missing field `streamNextOffset`"
    );
    let error = parser.push(b"data: \xff\n", "/s", false, &decode).unwrap_err();
    assert_eq!(error.message(), "invalid SSE event on /s: event stream was not valid UTF-8");
}

#[test]
fn what_was_decoded_is_delivered() {
    assert_eq!(
        decoded_data("/s", Ok(vec![7])).unwrap(),
        Some(SubscriptionEvent::Data(vec![7]))
    );
    let error = decoded_data("/s", Err("bad".to_string())).unwrap_err();
    assert_eq!(error.message(), "invalid SSE event on /s: invalid base64 SSE data: bad");
    let payload = || ControlPayload {
        stream_next_offset: "-1".to_string(),
        stream_cursor: None,
        up_to_date: Some(false),
        stream_closed: Some(true),
    };
    let checkpoint = checkpoint_from(payload());
    assert_eq!(checkpoint.next_offset, Offset::Start);
    assert!(!checkpoint.up_to_date);
    assert!(checkpoint.stream_closed);
    assert_eq!(
        control_event("/s", Ok(payload())).unwrap(),
        Some(SubscriptionEvent::Checkpoint(checkpoint))
    );
    assert!(control_event("/s", Err("bad".to_string())).is_err());
}

#[test]
fn comments_and_other_fields_are_passed_over() {
    let mut parser = SseParser::new();
    let noise = b": comment\nid: 4\nretry: 3\nnothing\n\n";
    assert_eq!(parser.push(noise, "/s", false, &decode).unwrap(), vec![]);
    let events = parser.push(b"event: data\rdata: x\r\r", "/s", false, &decode).unwrap();
    assert_eq!(events, vec![SubscriptionEvent::Data(b"x".to_vec())]);
}

#[test]
fn line_endings_and_comments_change_nothing() {
    let lines = ["event: data", "data: one", "data: two", "", "event: other", "data: x", ""];
    let plain = lines.map(|line| format!("{line}\n")).concat();
    let returns = lines.map(|line| format!("{line}\r")).concat();
    let both = lines.map(|line| format!("{line}\r\n")).concat();
    let noted = lines.map(|line| format!(": note\n{line}\rid: 7\r\n")).concat();
    for input in [plain, returns, both, noted] {
        let mut parser = SseParser::new();
        let events = parser.push(input.as_bytes(), "/s", false, &decode).unwrap();
        assert_eq!(events, vec![SubscriptionEvent::Data(b"one\ntwo".to_vec())]);
    }
}

#[test]
fn the_next_offset_is_required() {
    let good = headers(&[("stream-next-offset", b"o3"), ("stream-next-offset", b"o4")]);
    assert_eq!(require_offset(&good, "GET", "/s").unwrap(), Offset::from("o3"));
    let error = require_offset(&headers(&[]), "HEAD", "/s").unwrap_err();
    assert_eq!(error.message(), "missing required header `Stream-Next-Offset` on HEAD /s");
    let error = require_offset(&headers(&[("stream-next-offset", b"\xe9")]), "GET", "/s").unwrap_err();
    assert_eq!(
        error.message(),
        "invalid header `Stream-Next-Offset` on GET /s: header was not valid ASCII"
    );
}

#[test]
fn headers_are_found_in_any_case() {
    let map = headers(&[("etag", b"\"x\""), ("stream-closed", b"TrUe"), ("stream-cursor", b"\xff")]);
    assert_eq!(optional_string(&map, "ETag").as_deref(), Some("\"x\""));
    assert_eq!(optional_string(&map, "stream-cursor"), None);
    assert_eq!(optional_string(&map, "content-type"), None);
    assert!(has_true_header(&map, "Stream-Closed"));
    assert!(!has_true_header(&map, "etag"));
    assert!(!has_true_header(&map, "stream-up-to-date"));
    assert_eq!(optional_string(&map, "e tag"), None);
    assert_eq!(optional_string(&map, ""), None);
    assert!(!has_true_header(&map, "stream-closed:"));
    let long = "X-X-X-X-X-X-X-X-X-X-X-X-X-X-X-X-X-X-X-X-X-X-X-X-X-X-X-X-X-X-X-X-X-X-X-X-X-X-X-X-";
    let mut map = HeaderMap::new();
    let lower = HeaderName::from_bytes(long.to_lowercase().as_bytes()).unwrap();
    map.insert(lower, HeaderValue::from_static("v"));
    assert_eq!(optional_string(&map, long).as_deref(), Some("v"));
}

#[test]
fn waits_are_read_in_seconds() {
    let map = headers(&[("retry-after", b"3")]);
    assert_eq!(parse_retry_after(&map), Some(TimeSpan::from_secs(3)));
    assert_eq!(parse_retry_after(&headers(&[("retry-after", b"soon")])), None);
    assert_eq!(parse_retry_after(&headers(&[])), None);
}

#[test]
fn statuses_have_three_digits() {
    assert!(StatusCode::from_u16(99).is_none());
    assert!(StatusCode::from_u16(1000).is_none());
    assert_eq!(status(999).as_u16(), 999);
    assert!(status(200).is_success());
    assert!(status(204).is_success());
    assert!(!status(199).is_success());
    assert!(!status(300).is_success());
}

#[test]
fn statuses_are_classified() {
    assert_eq!(classify(status(400), "Invalid OFFSET", false), ErrorKind::InvalidOffset);
    assert_eq!(classify(status(400), "no", false), ErrorKind::BadRequest);
    assert_eq!(classify(status(403), "", false), ErrorKind::Forbidden);
    assert_eq!(classify(status(404), "", false), ErrorKind::NotFound);
    assert_eq!(classify(status(409), "", false), ErrorKind::Conflict);
    assert_eq!(classify(status(409), "", true), ErrorKind::StreamClosed);
    assert_eq!(classify(status(413), "", false), ErrorKind::PayloadTooLarge);
    assert_eq!(classify(status(429), "", false), ErrorKind::TooManyRequests);
    assert_eq!(classify(status(503), "", false), ErrorKind::ServiceUnavailable);
    assert_eq!(classify(status(500), "", false), ErrorKind::InternalServerError);
    assert_eq!(classify(status(418), "offset", true), ErrorKind::UnexpectedStatus);
}

#[test]
fn only_busy_and_failing_servers_are_asked_again() {
    for code in 100..=999 {
        let error = http_error_with_text("GET", "/s", status(code), &headers(&[]), "offset");
        assert_eq!(error.is_retryable(), code == 429 || code == 500 || code == 503);
    }
}

#[test]
fn failed_responses_are_described() {
    let map = headers(&[("retry-after", b"2"), ("stream-next-offset", b"o9")]);
    match http_error("GET", "/s", status(429), &map, b"  slow down \xff ") {
        Error::Http(error) => {
            assert_eq!(error.message.as_deref(), Some("slow down \u{fffd}"));
            assert_eq!(error.retry_after, Some(TimeSpan::from_secs(2)));
            assert_eq!(error.next_offset.as_deref(), Some("o9"));
            assert!(!error.stream_closed);
            assert!(error.is_retryable());
            assert_eq!(
                error.message(),
                "HTTP 429 Too Many Requests (TooManyRequests) during GET /s: slow down \u{fffd}"
            );
        }
        other => panic!("expected an HTTP error, got {other:?}"),
    }
    let error = http_error_with_text("HEAD", "/s", status(404), &headers(&[]), " \n");
    assert_eq!(error.message, None);
    assert!(!error.is_retryable());
    assert_eq!(error.message(), "HTTP 404 Not Found (NotFound) during HEAD /s");
    assert_eq!(error.describe("no"), "HTTP no (NotFound) during HEAD /s");
}
