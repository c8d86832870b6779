//! What the values and the outcomes of the library stand for.
use crate::app::{runtime_views, startup_views, StartupStep, StartupView};
use crate::bindings::json_tree;
use crate::bridge::StreamRuntime;
use crate::client::{client_result, stream_result, DurableStreamsClient};
use crate::discovery::{
    discovery_views, found_view, tree_view, Discovery, DiscoveryView,
};
use crate::error::{opt_nanos, Error, ErrorView};
use crate::kafka::{finds_as, header_views};
use crate::offset_store::{
    step_views, store_result, OffsetStore, OffsetStoreError, SaveStep, SaveStepView,
    StoreErrorView, StoreView,
};
use crate::protocol::sse::{
    control_result, event_result, events_result, reads_as, ControlPayload, ControlReading,
    ControlView,
};
use crate::stream::{DurableStream, StreamView};
use crate::text::{opt_view, text_result, views};
use crate::time::TimeSpan;
use crate::topic::str_view;
use crate::transport::{
    base_result, pair_views, request_result, url_result, BaseUrl, BaseUrlView, Delay, DelayView,
    HttpRequest, NextStep, RequestView, SendFailure, StepView, TransportView,
};
use crate::types::stream_path::{path_result, StreamPath};
use crate::types::subscription::{event_views, EventView, SubscriptionEvent};
use vstd::prelude::*;
use vstd::string::*;

verus! {

/// Optional texts and spans are there exactly where they are, and are what they are.
pub proof fn law_options(text: String, slice: &str, span: TimeSpan, value: serde_json::Value)
    ensures
        opt_view(Some(text)) == Some(text@),
        opt_view(None) is None,
        str_view(Some(slice)) == Some(slice@),
        str_view(None) is None,
        opt_nanos(Some(span)) == Some(span@),
        opt_nanos(None) is None,
        tree_view(Some(&value)) == Some(json_tree(value)),
        tree_view(None) is None,
{
}

/// Sequences stand for what each of their items stands for, in order.
pub proof fn law_sequences(
    strings: Seq<String>,
    pairs: Seq<(String, String)>,
    headers: Seq<(&'static str, Vec<u8>)>,
    events: Seq<SubscriptionEvent>,
    steps: Seq<SaveStep>,
    startup: Seq<StartupStep>,
    runtimes: Seq<StreamRuntime>,
    discoveries: Seq<Discovery>,
    i: int,
)
    ensures
        views(strings).len() == strings.len(),
        0 <= i < strings.len() ==> views(strings)[i] == strings[i]@,
        pair_views(pairs).len() == pairs.len(),
        0 <= i < pairs.len() ==> pair_views(pairs)[i] == (pairs[i].0@, pairs[i].1@),
        header_views(headers).len() == headers.len(),
        0 <= i < headers.len() ==> header_views(headers)[i] == (headers[i].0@, headers[i].1@),
        event_views(events).len() == events.len(),
        0 <= i < events.len() ==> event_views(events)[i] == events[i]@,
        step_views(steps).len() == steps.len(),
        0 <= i < steps.len() ==> step_views(steps)[i] == steps[i]@,
        startup_views(startup).len() == startup.len(),
        0 <= i < startup.len() ==> startup_views(startup)[i] == startup[i]@,
        runtime_views(runtimes).len() == runtimes.len(),
        0 <= i < runtimes.len() ==> runtime_views(runtimes)[i] == runtimes[i]@,
        discovery_views(discoveries).len() == discoveries.len(),
        0 <= i < discoveries.len() ==> discovery_views(discoveries)[i] == discoveries[i]@,
{
}

/// Outcomes stand for the value or the failure that they carry.
pub proof fn law_outcomes(
    error: Error,
    text: String,
    request: HttpRequest,
    base: BaseUrl,
    client: DurableStreamsClient,
    stream: DurableStream,
    path: StreamPath,
    events: Vec<SubscriptionEvent>,
    event: SubscriptionEvent,
    payload: ControlPayload,
)
    ensures
        text_result(Ok(text)) == Ok::<Seq<char>, Seq<char>>(text@),
        text_result(Err(text)) == Err::<Seq<char>, Seq<char>>(text@),
        request_result(Ok(request)) == Ok::<RequestView, ErrorView>(request@),
        request_result(Err(error)) == Err::<RequestView, ErrorView>(error@),
        url_result(Ok(text)) == Ok::<Seq<char>, ErrorView>(text@),
        url_result(Err(error)) == Err::<Seq<char>, ErrorView>(error@),
        base_result(Ok(base)) == Ok::<BaseUrlView, ErrorView>(base@),
        base_result(Err(error)) == Err::<BaseUrlView, ErrorView>(error@),
        client_result(Ok(client)) == Ok::<TransportView, ErrorView>(client@),
        client_result(Err(error)) == Err::<TransportView, ErrorView>(error@),
        stream_result(Ok(stream)) == Ok::<StreamView, ErrorView>(stream@),
        stream_result(Err(error)) == Err::<StreamView, ErrorView>(error@),
        path_result(Ok(path)) == Ok::<Seq<char>, ErrorView>(path@),
        path_result(Err(error)) == Err::<Seq<char>, ErrorView>(error@),
        events_result(Ok(events)) == Ok::<Seq<EventView>, ErrorView>(event_views(events@)),
        events_result(Err(error)) == Err::<Seq<EventView>, ErrorView>(error@),
        event_result(Ok(Some(event))) == Ok::<Option<EventView>, ErrorView>(Some(event@)),
        event_result(Ok(None)) == Ok::<Option<EventView>, ErrorView>(None),
        event_result(Err(error)) == Err::<Option<EventView>, ErrorView>(error@),
        control_result(Ok(payload)) == Ok::<ControlView, Seq<char>>(payload@),
        control_result(Err(text)) == Err::<ControlView, Seq<char>>(text@),
{
}

/// Outcomes of the store and of discovery stand for the value or the failure that they carry.
pub proof fn law_other_outcomes(
    store: OffsetStore,
    error: OffsetStoreError,
    discoveries: Vec<Discovery>,
    message: String,
)
    ensures
        store_result(Ok(store)) == Ok::<StoreView, StoreErrorView>(store@),
        store_result(Err(error)) == Err::<StoreView, StoreErrorView>(error@),
        found_view(Some(Ok(discoveries))) == Some(
            Ok::<Seq<DiscoveryView>, Seq<char>>(discovery_views(discoveries@)),
        ),
        found_view(Some(Err(message))) == Some(Err::<Seq<DiscoveryView>, Seq<char>>(message@)),
        found_view(None) is None,
{
}

/// A decoder, or a lookup, agrees with what it is said to do only where each of its answers does.
pub proof fn law_agreement<
    F: Fn(&str) -> Result<ControlPayload, String>,
    G: Fn(&str) -> Option<String>,
>(
    decode: F,
    reading: ControlReading,
    lookup: G,
    env: spec_fn(Seq<char>) -> Option<Seq<char>>,
    text: &str,
    read: Result<ControlPayload, String>,
    found: Option<String>,
)
    ensures
        reads_as(decode, reading) && call_ensures(decode, (text,), read) ==> control_result(read)
            == reading(text@),
        finds_as(lookup, env) && call_ensures(lookup, (text,), found) ==> opt_view(found) == env(
            text@,
        ),
{
}

/// A failure stands for what its fields say.
pub proof fn law_error_is_seen_as_it_is(error: Error)
    ensures
        match error {
            Error::InvalidBaseUrl { url, source } => error@ == (ErrorView::InvalidBaseUrl {
                url: url@,
                source: source@,
            }),
            Error::InvalidStreamPath { path, reason } => error@ == (ErrorView::InvalidStreamPath {
                path: path@,
                reason: reason@,
            }),
            Error::Transport { operation, path, source } => error@ == (ErrorView::Transport {
                operation: operation@,
                path: path@,
                source: source@,
            }),
            Error::Http(http) => error@ == ErrorView::Http(http@),
            Error::MissingHeader { operation, path, name } => error@ == (ErrorView::MissingHeader {
                operation: operation@,
                path: path@,
                name: name@,
            }),
            Error::InvalidHeader { operation, path, name, reason } => error@ == (
            ErrorView::InvalidHeader {
                operation: operation@,
                path: path@,
                name: name@,
                reason: reason@,
            }),
            Error::InvalidSse { path, reason } => error@ == (ErrorView::InvalidSse {
                path: path@,
                reason: reason@,
            }),
        },
{
}

/// A failure of the store stands for what its fields say.
pub proof fn law_store_error_is_seen_as_it_is(error: OffsetStoreError)
    ensures
        match error {
            OffsetStoreError::Read { path, source } => error@ == (StoreErrorView::Read {
                path: path@,
                source: source@,
            }),
            OffsetStoreError::Parse { path, source } => error@ == (StoreErrorView::Parse {
                path: path@,
                source: source@,
            }),
            OffsetStoreError::CreateDir { path, source } => error@ == (StoreErrorView::CreateDir {
                path: path@,
                source: source@,
            }),
            OffsetStoreError::Write { path, source } => error@ == (StoreErrorView::Write {
                path: path@,
                source: source@,
            }),
            OffsetStoreError::Rename { from, to, source } => error@ == (StoreErrorView::Rename {
                from: from@,
                to: to@,
                source: source@,
            }),
            OffsetStoreError::Serialize(source) => error@ == StoreErrorView::Serialize(source@),
        },
{
}

/// A step towards a new file stands for what its fields say.
pub proof fn law_save_step_is_seen_as_it_is(step: SaveStep)
    ensures
        match step {
            SaveStep::CreateDir { path } => step@ == (SaveStepView::CreateDir { path: path@ }),
            SaveStep::Write { path } => step@ == (SaveStepView::Write { path: path@ }),
            SaveStep::Rename { from, to } => step@ == (SaveStepView::Rename {
                from: from@,
                to: to@,
            }),
        },
{
}

/// A step of the start stands for what its fields say.
pub proof fn law_startup_step_is_seen_as_it_is(step: StartupStep)
    ensures
        match step {
            StartupStep::Connect => step@ is Connect,
            StartupStep::CreateSink => step@ is CreateSink,
            StartupStep::CheckStream { path } => step@ == (StartupView::CheckStream {
                path: path@,
            }),
            StartupStep::CheckTopics { topics, timeout, require_topics_exist } => step@ == (
            StartupView::CheckTopics {
                topics: views(topics@),
                timeout: timeout@,
                require_topics_exist,
            }),
            StartupStep::OpenStore { path } => step@ == (StartupView::OpenStore { path: path@ }),
            StartupStep::MissingStore => step@ is MissingStore,
            StartupStep::Forward(runtime) => step@ == StartupView::Forward(runtime@),
            StartupStep::Discover(config) => step@ == StartupView::Discover(config),
        },
{
}

/// What became of an event stands for what its fields say.
pub proof fn law_discovery_is_seen_as_it_is(discovery: Discovery)
    ensures
        match discovery {
            Discovery::Filtered => discovery@ is Filtered,
            Discovery::MissingPath => discovery@ is MissingPath,
            Discovery::InvalidPath { path, error } => discovery@ == (DiscoveryView::InvalidPath {
                path: path@,
                error: error@,
            }),
            Discovery::AlreadyActive => discovery@ is AlreadyActive,
            Discovery::Spawn(runtime) => discovery@ == DiscoveryView::Spawn(runtime@),
        },
{
}

/// What follows on an attempt stands for what it says, and so does the reason of a lost request.
pub proof fn law_next_step_is_seen_as_it_is(
    step: NextStep,
    delay: Delay,
    failure: SendFailure,
    base: BaseUrl,
)
    ensures
        match step {
            NextStep::Retry(wait) => step@ == StepView::Retry(wait@),
            NextStep::Fail(error) => step@ == StepView::Fail(error@),
        },
        match delay {
            Delay::Exactly(span) => delay@ == DelayView::Exactly(span@),
            Delay::Jittered(span) => delay@ == DelayView::Jittered(span@),
        },
        failure@.timeout == failure.timeout && failure@.connect == failure.connect
            && failure@.request == failure.request && failure@.source == failure.source@,
        base@.given == base.given@ && base@.text == base.text@,
{
}

} // verus!
