use durable_streams_kafka_bridge::app::{
    step_taken, supervise, App, AppError, StartupStep, StepOutcome, TaskEvent, Verdict,
};
use durable_streams_kafka_bridge::bridge::BridgeError;
use durable_streams_kafka_bridge::config::{
    BridgeConfig, ConfigError, DiscoveryConfig, DurableStreamsConfig, KafkaConfig,
    OffsetStoreConfig, PreflightConfig, StreamConfig, TopicMappingConfig,
};
use durable_streams_kafka_bridge::error::Error;
use durable_streams_kafka_bridge::kafka::SinkError;
use durable_streams_kafka_bridge::offset_store::OffsetStoreError;
use durable_streams_kafka_bridge::text_map::TextMap;
use durable_streams_kafka_bridge::time::TimeSpan;

fn config() -> BridgeConfig {
    let stream = |path: &str, topic: Option<&str>| StreamConfig {
        path: path.to_string(),
        topic: topic.map(str::to_string),
        target: None,
        offset: None,
    };
    BridgeConfig {
        durable_streams: DurableStreamsConfig {
            base_url: "http://localhost:4437".to_string(),
            request_timeout_ms: 1_500,
        },
        kafka: KafkaConfig {
            bootstrap_servers: "localhost:9092".to_string(),
            client_id: "bridge".to_string(),
            delivery_timeout_ms: 30_000,
            auth: None,
        },
        targets: TextMap::new(),
        topic_mapping: TopicMappingConfig::default(),
        offset_store: OffsetStoreConfig { path: Some("offsets.json".to_string()) },
        preflight: PreflightConfig { enabled: true, timeout_ms: 2_000, require_topics_exist: true },
        streams: vec![stream("/a", None), stream("/b", Some("orders"))],
        discovery: vec![DiscoveryConfig {
            control_stream: "/control".to_string(),
            filter_field: None,
            filter_value: None,
            path_field: "path".to_string(),
            path_prefix: None,
            default_offset: None,
            topic_template: None,
        }],
    }
}

fn name(step: &StartupStep) -> String {
    match step {
        StartupStep::Connect => "connect".to_string(),
        StartupStep::CreateSink => "sink".to_string(),
        StartupStep::CheckStream { path } => format!("check {path}"),
        StartupStep::CheckTopics { topics, timeout, require_topics_exist } => {
            assert_eq!(*timeout, TimeSpan::from_secs(2));
            assert!(*require_topics_exist);
            format!("check {}", topics.join(" "))
        }
        StartupStep::OpenStore { path } => format!("open {path}"),
        StartupStep::MissingStore => "missing".to_string(),
        StartupStep::Forward(runtime) => format!("forward {} {}", runtime.path, runtime.topic),
        StartupStep::Discover(config) => format!("discover {}", config.control_stream),
    }
}

/// Takes the steps; each comes out as `outcome` says.
fn start(
    config: BridgeConfig,
    outcome: impl Fn(&StartupStep) -> StepOutcome,
) -> (Vec<String>, Result<(), AppError>) {
    let mut startup = App::new(config).run();
    let mut names = vec![];
    while let Some(step) = startup.step() {
        names.push(name(step));
        let outcome = outcome(step);
        startup = match startup.taken(outcome) {
            Ok(startup) => startup,
            Err(error) => return (names, Err(error)),
        };
    }
    (names, Ok(()))
}

fn no_answer() -> Error {
    Error::InvalidStreamPath { path: "x".to_string(), reason: "bad".to_string() }
}

fn no_sink() -> SinkError {
    SinkError::Message("down".to_string())
}

#[test]
fn checks_come_first_and_tasks_last() {
    let (names, result) = start(config(), |_| StepOutcome::Done);
    assert_eq!(
        names,
        vec![
            "connect",
            "sink",
            "check /a",
            "check /b",
            "check durable-streams.a orders",
            "open offsets.json",
            "forward /a durable-streams.a",
            "forward /b orders",
            "discover /control",
        ]
    );
    assert!(result.is_ok());
}

#[test]
fn checks_can_be_left_out() {
    let mut config = config();
    config.preflight.enabled = false;
    let (names, _) = start(config, |_| StepOutcome::Done);
    assert_eq!(names.len(), 6);
    assert_eq!(names[2], "open offsets.json");
}

#[test]
fn without_a_store_nothing_is_forwarded() {
    let mut config = config();
    config.offset_store.path = None;
    let (names, result) = start(config, |_| StepOutcome::Done);
    assert_eq!(names.len(), 6);
    assert_eq!(names[5], "missing");
    let error = result.unwrap_err();
    assert!(matches!(error, AppError::MissingOffsetStorePath));
    assert_eq!(error.message(), "offset store path was not resolved");
}

#[test]
fn the_first_check_that_fails_ends_the_start() {
    let (names, result) = start(config(), |step| match step {
        StartupStep::CheckStream { .. } => StepOutcome::NoAnswer(no_answer()),
        _ => StepOutcome::Done,
    });
    assert_eq!(names, vec!["connect", "sink", "check /a"]);
    match result {
        Err(AppError::PreflightStream { stream_path, source }) => {
            assert_eq!(stream_path, "/a");
            assert_eq!(source.message(), no_answer().message());
        }
        other => panic!("expected a failed check, got {other:?}"),
    }

    let (names, result) = start(config(), |step| match step {
        StartupStep::CheckTopics { .. } => StepOutcome::NoSink(no_sink()),
        _ => StepOutcome::Done,
    });
    assert_eq!(names.len(), 5);
    assert!(matches!(result, Err(AppError::PreflightKafka(SinkError::Message(m))) if m == "down"));
}

#[test]
fn failed_steps_are_told_apart() {
    let failed = |step: StartupStep, outcome: StepOutcome| step_taken(&step, outcome).unwrap_err();
    let check = || StartupStep::CheckStream { path: "/a".to_string() };
    let open = || StartupStep::OpenStore { path: "o.json".to_string() };
    let error = failed(StartupStep::CreateSink, StepOutcome::NoSink(no_sink()));
    assert!(matches!(error, AppError::Kafka(_)));
    let error = failed(StartupStep::Connect, StepOutcome::NoAnswer(no_answer()));
    assert!(matches!(error, AppError::Client(_)));
    let error = failed(check(), StepOutcome::NoStream(no_answer()));
    assert!(matches!(error, AppError::Client(_)));
    let store = OffsetStoreError::Serialize("s".to_string());
    assert!(matches!(failed(open(), StepOutcome::NoStore(store)), AppError::OffsetStore(_)));
    let error = failed(StartupStep::MissingStore, StepOutcome::Done);
    assert!(matches!(error, AppError::MissingOffsetStorePath));
    assert!(step_taken(&check(), StepOutcome::Done).is_ok());
}

#[test]
fn the_client_takes_its_timeout_from_the_configuration() {
    let app = App::new(config());
    let client = app.client().unwrap();
    let request = client.stream("/a").unwrap().metadata_request().unwrap();
    assert_eq!(request.timeout, Some(TimeSpan::from_millis(1_500)));
    assert_eq!(app.runtimes().len(), 2);
    assert_eq!(app.config().kafka.client_id, "bridge");

    let mut broken = config();
    broken.durable_streams.base_url = "nowhere".to_string();
    match App::new(broken).client() {
        Err(AppError::Client(Error::InvalidBaseUrl { url, .. })) => assert_eq!(url, "nowhere"),
        other => panic!("expected an invalid URL, got {other:?}"),
    }
    assert!(app.client_with_parsed(Err("bad".to_string())).is_err());
}

#[test]
fn the_first_failure_ends_the_bridge() {
    assert!(matches!(supervise(TaskEvent::Finished), Verdict::Continue));
    assert!(matches!(supervise(TaskEvent::NoneLeft), Verdict::Done));
    assert!(matches!(supervise(TaskEvent::Interrupted), Verdict::Abort));
    let failed = BridgeError::Sink(SinkError::Message("full".to_string()));
    match supervise(TaskEvent::Failed(failed)) {
        Verdict::Fail(error) => assert_eq!(error.message(), "full"),
        other => panic!("expected a failure, got {other:?}"),
    }
    assert!(matches!(
        supervise(TaskEvent::Broken("panicked".to_string())),
        Verdict::Fail(AppError::Join(_))
    ));
    assert!(matches!(
        supervise(TaskEvent::SignalFailed("no signals".to_string())),
        Verdict::Fail(AppError::Signal(_))
    ));
}

#[test]
fn failures_are_put_in_words() {
    let sink = || SinkError::Message("down".to_string());
    let path_fault = Error::InvalidStreamPath { path: "x".to_string(), reason: "bad".to_string() };
    let error = AppError::PreflightStream { stream_path: "/a".to_string(), source: path_fault };
    assert_eq!(error.message(), "durable streams preflight failed for `/a`");
    assert_eq!(AppError::PreflightKafka(sink()).message(), "kafka preflight failed");
    assert_eq!(AppError::Kafka(sink()).message(), "down");
    assert_eq!(AppError::Config(ConfigError::Validation("v".to_string())).message(), "v");
    assert_eq!(AppError::Join("j".to_string()).message(), "j");
    assert_eq!(AppError::Signal("s".to_string()).message(), "s");
}
