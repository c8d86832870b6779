//! What failures say in words.
use crate::app::AppError;
use crate::bindings::status_text;
use crate::bridge::BridgeError;
use crate::config::ConfigError;
use crate::error::{message_suffix, ErrorKind, ErrorView, HttpErrorView};
use crate::kafka::SinkError;
use crate::offset_store::StoreErrorView;
use vstd::prelude::*;
use vstd::string::*;

verus! {

/// A failure of the client says what went wrong, during what, on which stream and why.
pub proof fn law_client_failures_in_words(
    url: Seq<char>,
    path: Seq<char>,
    operation: Seq<char>,
    name: Seq<char>,
    reason: Seq<char>,
)
    ensures
        (ErrorView::InvalidBaseUrl { url, source: reason }).message()
            == "invalid durable streams base URL `"@ + url + "`"@,
        (ErrorView::InvalidStreamPath { path, reason }).message() == "invalid stream path `"@ + path
            + "`: "@ + reason,
        (ErrorView::Transport { operation, path, source: reason }).message()
            == "HTTP transport error during "@ + operation + " "@ + path + ": "@ + reason,
        (ErrorView::MissingHeader { operation, path, name }).message()
            == "missing required header `"@ + name + "` on "@ + operation + " "@ + path,
        (ErrorView::InvalidHeader { operation, path, name, reason }).message()
            == "invalid header `"@ + name + "` on "@ + operation + " "@ + path + ": "@ + reason,
        (ErrorView::InvalidSse { path, reason }).message() == "invalid SSE event on "@ + path
            + ": "@ + reason,
{
}

/// A failed response says its status, its class, what was asked for and, where it has one that is
/// not empty, its message.
pub proof fn law_failed_responses_in_words(error: HttpErrorView, status: Seq<char>)
    ensures
        ({
            let head = "HTTP "@ + status + " ("@ + error.kind.spec_name() + ") during "@
                + error.operation + " "@ + error.path;
            &&& error.message is None ==> error.described(status) == head
            &&& error.message is Some && error.message->0.len() > 0 ==> error.described(status)
                == head + (": "@ + error.message->0)
            &&& error.message is Some && error.message->0.len() == 0 ==> error.described(status)
                == head
        }),
        error.message() == error.described(status_text(error.status)),
        ErrorView::Http(error).message() == error.message(),
        message_suffix(None) == Seq::<char>::empty(),
{
    let head = "HTTP "@ + status + " ("@ + error.kind.spec_name() + ") during "@ + error.operation
        + " "@ + error.path;
    assert(head + Seq::<char>::empty() =~= head);
}

/// Each class is called by its name.
pub proof fn law_names_of_classes()
    ensures
        ErrorKind::Network.spec_name() == "Network"@,
        ErrorKind::Timeout.spec_name() == "Timeout"@,
        ErrorKind::InvalidOffset.spec_name() == "InvalidOffset"@,
        ErrorKind::BadRequest.spec_name() == "BadRequest"@,
        ErrorKind::Forbidden.spec_name() == "Forbidden"@,
        ErrorKind::NotFound.spec_name() == "NotFound"@,
        ErrorKind::Conflict.spec_name() == "Conflict"@,
        ErrorKind::StreamClosed.spec_name() == "StreamClosed"@,
        ErrorKind::PayloadTooLarge.spec_name() == "PayloadTooLarge"@,
        ErrorKind::TooManyRequests.spec_name() == "TooManyRequests"@,
        ErrorKind::ServiceUnavailable.spec_name() == "ServiceUnavailable"@,
        ErrorKind::InternalServerError.spec_name() == "InternalServerError"@,
        ErrorKind::UnexpectedStatus.spec_name() == "UnexpectedStatus"@,
{
}

/// A failure of Kafka says what could not be done, or what is missing.
pub proof fn law_kafka_failures_in_words(error: SinkError)
    ensures
        match error {
            SinkError::CreateProducer(_) => error.text() == "failed to create Kafka producer"@,
            SinkError::Deliver(_) => error.text() == "failed to deliver Kafka record"@,
            SinkError::MetadataFetch(_) => error.text() == "failed to fetch Kafka metadata"@,
            SinkError::MissingTopic { topic } => error.text() == "required Kafka topic `"@ + topic@
                + "` was not found during preflight"@,
            SinkError::MissingEnvVar { name } => error.text() == "required Kafka auth env var `"@
                + name@ + "` was not set"@,
            SinkError::Message(text) => error.text() == text@,
        },
{
}

/// A failure of the configuration says which file is meant, or what is wrong.
pub proof fn law_configuration_failures_in_words(error: ConfigError)
    ensures
        match error {
            ConfigError::Read { path, .. } => error.text() == "failed to read config file `"@ + path@
                + "`"@,
            ConfigError::Parse { path, .. } => error.text() == "failed to parse config file `"@
                + path@ + "`"@,
            ConfigError::Validation(text) => error.text() == text@,
        },
{
}

/// A failure of the store says what could not be done, and where.
pub proof fn law_store_failures_in_words(path: Seq<char>, to: Seq<char>, source: Seq<char>)
    ensures
        (StoreErrorView::Read { path, source }).message() == "failed to read offset store `"@ + path
            + "`"@,
        (StoreErrorView::Parse { path, source }).message() == "failed to parse offset store `"@
            + path + "`"@,
        (StoreErrorView::CreateDir { path, source }).message() == "failed to create directory `"@
            + path + "`"@,
        (StoreErrorView::Write { path, source }).message() == "failed to write offset store `"@
            + path + "`"@,
        (StoreErrorView::Rename { from: path, to, source }).message()
            == "failed to rename offset store from `"@ + path + "` to `"@ + to + "`"@,
        StoreErrorView::Serialize(source).message() == "failed to serialize offset store"@,
{
}

/// A failure of the bridge says what the part that failed says, or what came in the wrong order.
pub proof fn law_bridge_failures_in_words(error: BridgeError)
    ensures
        match error {
            BridgeError::Client(e) => error.text() == e@.message(),
            BridgeError::Sink(e) => error.text() == e.text(),
            BridgeError::OffsetStore(e) => error.text() == e@.message(),
            BridgeError::UnexpectedSequence { stream_path, reason } => error.text()
                == "unexpected event sequence for `"@ + stream_path@ + "`: "@ + reason@,
        },
{
}

/// A failure of the program says what the part that failed says, or which check it was.
pub proof fn law_program_failures_in_words(error: AppError)
    ensures
        match error {
            AppError::Config(e) => error.text() == e.text(),
            AppError::Client(e) => error.text() == e@.message(),
            AppError::Kafka(e) => error.text() == e.text(),
            AppError::PreflightStream { stream_path, .. } => error.text()
                == "durable streams preflight failed for `"@ + stream_path@ + "`"@,
            AppError::PreflightKafka(_) => error.text() == "kafka preflight failed"@,
            AppError::OffsetStore(e) => error.text() == e@.message(),
            AppError::Bridge(e) => error.text() == e.text(),
            AppError::Join(text) => error.text() == text@,
            AppError::Signal(text) => error.text() == text@,
            AppError::MissingOffsetStorePath => error.text() == "offset store path was not resolved"@,
        },
{
}

} // verus!
