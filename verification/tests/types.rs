use durable_streams_kafka_bridge::error::Error;
use durable_streams_kafka_bridge::time::TimeSpan;
use durable_streams_kafka_bridge::types::{Offset, ReadMode, ReadRequest, StreamPath, SubscribeRequest};

#[test]
fn preserves_opaque_offsets() {
    let offset = Offset::from("abc123");
    assert_eq!(offset.as_str(), "abc123");
}

#[test]
fn maps_reserved_sentinels() {
    assert_eq!(Offset::from("-1"), Offset::Start);
    assert_eq!(Offset::from("now"), Offset::Now);
}

#[test]
fn offsets_are_denoted_by_their_text() {
    assert_eq!(Offset::start().as_str(), "-1");
    assert_eq!(Offset::now().as_str(), "now");
    assert_eq!(Offset::from("now".to_string()), Offset::Now);
    assert_eq!(Offset::from("-1".to_string()), Offset::Start);
    assert_eq!(Offset::from("o1".to_string()), Offset::Value("o1".to_string()));
    assert_eq!(Offset::from("start"), Offset::Value("start".to_string()));
    assert_eq!(Offset::default(), Offset::Start);
    assert_eq!("o7".parse::<Offset>().unwrap(), Offset::Value("o7".to_string()));
}

#[test]
fn empty_offsets_are_refused() {
    match "".parse::<Offset>() {
        Err(Error::InvalidHeader { operation, path, name, reason }) => {
            assert_eq!(operation, "parse");
            assert_eq!(path, "<offset>");
            assert_eq!(name, "Stream-Next-Offset");
            assert_eq!(reason, "offset cannot be empty");
        }
        other => panic!("expected an invalid header, got {other:?}"),
    }
}

#[test]
fn accepts_absolute_paths() {
    let path = StreamPath::new("/v1/stream/orders").unwrap();
    assert_eq!(path.as_str(), "/v1/stream/orders");
}

#[test]
fn refuses_paths_that_are_not_absolute() {
    let error = StreamPath::new("").unwrap_err();
    assert_eq!(error.message(), "invalid stream path ``: path cannot be empty");
    let error = StreamPath::new("v1/stream").unwrap_err();
    assert_eq!(error.message(), "invalid stream path `v1/stream`: path must start with `/`");
    assert_eq!(StreamPath::try_from("/a".to_string()).unwrap().as_str(), "/a");
    assert!(StreamPath::try_from("a".to_string()).is_err());
}

#[test]
fn requests_start_at_the_beginning_unless_told_otherwise() {
    let request = ReadRequest::default();
    assert_eq!(request.offset, Offset::Start);
    assert_eq!(request.mode, ReadMode::CatchUp);
    assert_eq!(request.cursor, None);
    assert_eq!(SubscribeRequest::default().offset, Offset::Start);
}

#[test]
fn spans_are_exact() {
    assert_eq!(TimeSpan::from_millis(1_500).parts(), (1, 500_000_000));
    assert_eq!(TimeSpan::from_secs(3).parts(), (3, 0));
    assert_eq!(TimeSpan::from_millis(700).saturating_mul(3).parts(), (2, 100_000_000));
    assert_eq!(TimeSpan::from_secs(u64::MAX).saturating_mul(2).parts(), (u64::MAX, 999_999_999));
    assert_eq!(TimeSpan::from_millis(5).min(TimeSpan::from_millis(4)).parts(), (0, 4_000_000));
}
