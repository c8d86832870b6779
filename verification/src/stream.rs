//! The operations on one stream.
use crate::bindings::url_joined;
use crate::error::{Error, ErrorView};
use crate::laws::headers::{says_true, value_under};
use crate::laws::stream::{law_metadata_report_their_response, law_read_reports_its_response};
use crate::protocol::headers::{
    has_true_header, header_is_true, header_text, lemma_header_names, offset_outcome, optional_string,
    require_offset, CONTENT_TYPE, ETAG, STREAM_CLOSED, STREAM_CURSOR, STREAM_SSE_DATA_ENCODING,
    STREAM_UP_TO_DATE,
};
use crate::protocol::sse::{
    events_result, finish_outcome, reads_as, ControlPayload, ControlReading, SseParser, SseState,
};
use crate::text::{eq_ignore_ascii_case, equal_ignoring_case, opt_view};
use crate::transport::{
    request_result, HttpRequest, HttpTransport, Method, RequestView, TransportView,
};
use crate::types::offset::{Offset, OffsetView};
use crate::types::read::{
    MetadataView, ReadMode, ReadRequest, ReadResponse, ReadResponseView, StreamMetadata,
};
use crate::types::stream_path::StreamPath;
use crate::types::subscription::{
    event_views, CheckpointView, EventView, SubscribeRequest, SubscriptionEvent,
};
use reqwest::header::HeaderMap;
use vstd::prelude::*;
use vstd::string::*;

verus! {

/// A handle for one stream.
#[derive(Debug)]
pub struct DurableStream {
    transport: HttpTransport,
    path: StreamPath,
}

/// What a [`DurableStream`] stands for.
pub ghost struct StreamView {
    pub transport: TransportView,
    pub path: Seq<char>,
}

impl View for DurableStream {
    type V = StreamView;

    closed spec fn view(&self) -> StreamView {
        StreamView { transport: self.transport@, path: self.path@ }
    }
}

impl Clone for DurableStream {
    fn clone(&self) -> (r: DurableStream)
        ensures
            r@ == self@,
    {
        DurableStream { transport: self.transport.clone(), path: self.path.clone() }
    }
}

/// What the headers of a response say of a stream.
pub open spec fn metadata_outcome(headers: HeaderMap, path: Seq<char>) -> Result<
    MetadataView,
    ErrorView,
> {
    match offset_outcome(headers, "HEAD"@, path) {
        Ok(next_offset) => Ok(
            MetadataView {
                content_type: header_text(headers, "content-type"@),
                next_offset,
                stream_closed: header_is_true(headers, "stream-closed"@),
                etag: header_text(headers, "etag"@),
            },
        ),
        Err(error) => Err(error),
    }
}

/// What a response to a read holds.
pub open spec fn read_outcome(headers: HeaderMap, bytes: Seq<u8>, path: Seq<char>) -> Result<
    ReadResponseView,
    ErrorView,
> {
    match offset_outcome(headers, "GET"@, path) {
        Ok(next_offset) => Ok(
            ReadResponseView {
                bytes,
                content_type: header_text(headers, "content-type"@),
                next_offset,
                up_to_date: header_is_true(headers, "stream-up-to-date"@),
                stream_closed: header_is_true(headers, "stream-closed"@),
                cursor: header_text(headers, "stream-cursor"@),
                etag: header_text(headers, "etag"@),
            },
        ),
        Err(error) => Err(error),
    }
}

/// The query of a read.
pub open spec fn read_query(request: ReadRequest) -> Seq<(Seq<char>, Seq<char>)> {
    let live = if request.mode == ReadMode::LongPoll {
        seq![("live"@, "long-poll"@)]
    } else {
        Seq::empty()
    };
    let cursor = match opt_view(request.cursor) {
        Some(cursor) => seq![("cursor"@, cursor)],
        None => Seq::empty(),
    };
    seq![("offset"@, request.offset@.text())] + live + cursor
}

/// The query of a subscription that starts at `offset`.
pub open spec fn subscribe_query(offset: OffsetView) -> Seq<(Seq<char>, Seq<char>)> {
    seq![("offset"@, offset.text()), ("live"@, "sse"@)]
}

/// The request `outcome` with the given query.
pub open spec fn asking(
    outcome: Result<RequestView, ErrorView>,
    query: Seq<(Seq<char>, Seq<char>)>,
) -> Result<RequestView, ErrorView> {
    match outcome {
        Ok(request) => Ok(RequestView { query, ..request }),
        Err(error) => Err(error),
    }
}

/// Whether the data events of the response are encoded in base64.
pub open spec fn base64_encoded(headers: HeaderMap) -> bool {
    match header_text(headers, "stream-sse-data-encoding"@) {
        Some(text) => equal_ignoring_case(text, "base64"@),
        None => false,
    }
}

/// Adds the query of a read to a request.
pub fn ask_to_read(built: &mut HttpRequest, request: &ReadRequest)
    ensures
        final(built)@ == (RequestView {
            query: old(built)@.query + read_query(*request),
            ..old(built)@
        }),
{
    built.query("offset", request.offset.as_str());
    if request.mode == ReadMode::LongPoll {
        built.query("live", "long-poll");
    }
    if let Some(cursor) = &request.cursor {
        built.query("cursor", cursor.as_str());
    }
    assert(built@.query =~= old(built)@.query + read_query(*request));
}

/// Adds the query of a subscription to a request.
pub fn ask_to_subscribe(built: &mut HttpRequest, offset: &Offset)
    ensures
        final(built)@ == (RequestView {
            query: old(built)@.query + subscribe_query(offset@),
            ..old(built)@
        }),
{
    built.query("offset", offset.as_str());
    built.query("live", "sse");
    assert(built@.query =~= old(built)@.query + subscribe_query(offset@));
}

impl DurableStream {
    pub(crate) fn new(transport: HttpTransport, path: StreamPath) -> (r: DurableStream)
        ensures
            r@ == (StreamView { transport: transport@, path: path@ }),
    {
        DurableStream { transport, path }
    }

    /// The path of the stream.
    #[must_use]
    pub fn path(&self) -> (r: &StreamPath)
        ensures
            r@ == self@.path,
    {
        &self.path
    }

    /// How the stream is reached.
    pub fn transport(&self) -> (r: &HttpTransport)
        ensures
            r@ == self@.transport,
    {
        &self.transport
    }

    /// The request for what the server says of the stream without sending any of it.
    pub fn metadata_request(&self) -> (r: Result<HttpRequest, Error>)
        ensures
            request_result(r) == self@.transport.timed_request(
                Method::Head,
                self@.path,
                url_joined(self@.transport.base.given, self@.path),
            ),
    {
        self.transport.bounded_request(Method::Head, self.path.as_str())
    }

    /// What the server says of the stream, by the headers of its answer.
    pub fn metadata(&self, headers: &HeaderMap) -> (r: Result<StreamMetadata, Error>)
        ensures
            (match r {
                Ok(metadata) => Ok::<MetadataView, ErrorView>(metadata@),
                Err(error) => Err::<MetadataView, ErrorView>(error@),
            }) == metadata_outcome(*headers, self@.path),
            r matches Ok(metadata) ==> (metadata.stream_closed <==> says_true(
                value_under(*headers, "stream-closed"@),
            )),
    {
        proof {
            law_metadata_report_their_response(*headers, self@.path);
            lemma_header_names();
        }
        match require_offset(headers, "HEAD", self.path.as_str()) {
            Ok(next_offset) => Ok(
                StreamMetadata {
                    content_type: optional_string(headers, CONTENT_TYPE),
                    next_offset,
                    stream_closed: has_true_header(headers, STREAM_CLOSED),
                    etag: optional_string(headers, ETAG),
                },
            ),
            Err(error) => Err(error),
        }
    }

    /// The request for a read of the stream.
    pub fn read_request(&self, request: &ReadRequest) -> (r: Result<HttpRequest, Error>)
        ensures
            request_result(r) == asking(
                self@.transport.timed_request(
                    Method::Get,
                    self@.path,
                    url_joined(self@.transport.base.given, self@.path),
                ),
                read_query(*request),
            ),
    {
        let mut built = match self.transport.bounded_request(Method::Get, self.path.as_str()) {
            Ok(built) => built,
            Err(error) => {
                return Err(error);
            },
        };
        ask_to_read(&mut built, request);
        assert(built@.query =~= read_query(*request));
        Ok(built)
    }

    /// What a read returned, by the headers and the body of the answer.
    pub fn read(&self, headers: &HeaderMap, bytes: Vec<u8>) -> (r: Result<ReadResponse, Error>)
        ensures
            (match r {
                Ok(response) => Ok::<ReadResponseView, ErrorView>(response@),
                Err(error) => Err::<ReadResponseView, ErrorView>(error@),
            }) == read_outcome(*headers, bytes@, self@.path),
            r matches Ok(response) ==> (response.stream_closed <==> says_true(
                value_under(*headers, "stream-closed"@),
            )) && (response.up_to_date <==> says_true(value_under(*headers, "stream-up-to-date"@)))
                && response.bytes == bytes,
    {
        proof {
            law_read_reports_its_response(*headers, bytes@, self@.path);
            lemma_header_names();
        }
        match require_offset(headers, "GET", self.path.as_str()) {
            Ok(next_offset) => Ok(
                ReadResponse {
                    bytes,
                    content_type: optional_string(headers, CONTENT_TYPE),
                    next_offset,
                    up_to_date: has_true_header(headers, STREAM_UP_TO_DATE),
                    stream_closed: has_true_header(headers, STREAM_CLOSED),
                    cursor: optional_string(headers, STREAM_CURSOR),
                    etag: optional_string(headers, ETAG),
                },
            ),
            Err(error) => Err(error),
        }
    }

    /// The failure to read the body of an answer.
    pub fn body_lost(&self, source: String) -> (r: Error)
        ensures
            r@ == (ErrorView::Transport { operation: "GET"@, path: self@.path, source: source@ }),
    {
        Error::Transport { operation: "GET", path: self.path.as_str().to_owned(), source }
    }

    /// Starts to follow the stream.
    #[must_use]
    pub fn subscribe(&self, request: SubscribeRequest) -> (r: Subscription)
        ensures
            r@ == SubscriptionView::initial(self@, request.offset@),
    {
        Subscription {
            stream: self.clone(),
            offset: request.offset,
            base64_data: false,
            should_stop: false,
            parser: SseParser::new(),
        }
    }
}

/// The last checkpoint among the events, if there is one.
pub open spec fn last_checkpoint(events: Seq<EventView>) -> Option<CheckpointView>
    decreases events.len(),
{
    if events.len() == 0 {
        None
    } else {
        match events.last() {
            EventView::Checkpoint(checkpoint) => Some(checkpoint),
            EventView::Data(_) => last_checkpoint(events.drop_last()),
        }
    }
}

/// Where a subscription that stands at `offset` stands after the events.
pub open spec fn offset_after(offset: OffsetView, events: Seq<EventView>) -> OffsetView {
    match last_checkpoint(events) {
        Some(checkpoint) => checkpoint.next_offset,
        None => offset,
    }
}

/// Whether the stream is known to be closed after the events.
pub open spec fn closed_after(closed: bool, events: Seq<EventView>) -> bool {
    match last_checkpoint(events) {
        Some(checkpoint) => checkpoint.stream_closed,
        None => closed,
    }
}

/// A subscription: it connects, takes in what the connection delivers, and connects again where
/// the last checkpoint left off, until the stream is closed.
#[derive(Debug)]
pub struct Subscription {
    stream: DurableStream,
    offset: Offset,
    base64_data: bool,
    should_stop: bool,
    parser: SseParser,
}

/// What a [`Subscription`] stands for.
pub ghost struct SubscriptionView {
    pub stream: StreamView,
    pub offset: OffsetView,
    pub base64_data: bool,
    pub should_stop: bool,
    pub parser: SseState,
}

impl View for Subscription {
    type V = SubscriptionView;

    closed spec fn view(&self) -> SubscriptionView {
        SubscriptionView {
            stream: self.stream@,
            offset: self.offset@,
            base64_data: self.base64_data,
            should_stop: self.should_stop,
            parser: self.parser@,
        }
    }
}

impl SubscriptionView {
    /// A subscription that has not connected yet.
    pub open spec fn initial(stream: StreamView, offset: OffsetView) -> SubscriptionView {
        SubscriptionView {
            stream,
            offset,
            base64_data: false,
            should_stop: false,
            parser: SseState::initial(),
        }
    }

    /// The subscription once a connection has been made. Nothing of the last connection is left
    /// but the offset.
    pub open spec fn connected(self, base64_data: bool) -> SubscriptionView {
        SubscriptionView {
            base64_data,
            should_stop: false,
            parser: SseState::initial(),
            ..self
        }
    }

    /// The subscription, in the parser state that is given, once it has handed out the events.
    pub open spec fn delivered(self, parser: SseState, events: Seq<EventView>) -> SubscriptionView {
        SubscriptionView {
            offset: offset_after(self.offset, events),
            should_stop: closed_after(self.should_stop, events),
            parser,
            ..self
        }
    }

    /// The subscription after a chunk, and what the chunk delivers.
    pub open spec fn with_chunk(self, chunk: Seq<u8>, reading: ControlReading) -> (
        SubscriptionView,
        Result<Seq<EventView>, ErrorView>,
    ) {
        let (parser, outcome) = self.parser.with_bytes(chunk).drained(
            self.stream.path,
            self.base64_data,
            reading,
        );
        match outcome {
            Ok(events) => (self.delivered(parser, events), outcome),
            Err(_) => (SubscriptionView { parser, ..self }, outcome),
        }
    }

    /// The subscription after the connection has ended, and what the end delivers.
    pub open spec fn with_end(self, reading: ControlReading) -> (
        SubscriptionView,
        Result<Seq<EventView>, ErrorView>,
    ) {
        let outcome = finish_outcome(self.parser, self.stream.path, self.base64_data, reading);
        match outcome {
            Ok(events) => (self.delivered(self.parser.dispatched(), events), outcome),
            Err(_) => (SubscriptionView { parser: self.parser.dispatched(), ..self }, outcome),
        }
    }
}

impl Subscription {
    /// The request that connects: it asks for events from where the subscription stands, and may
    /// take as long as it likes.
    pub fn request(&self) -> (r: Result<HttpRequest, Error>)
        ensures
            request_result(r) == asking(
                self@.stream.transport.open_request(
                    Method::Get,
                    self@.stream.path,
                    url_joined(self@.stream.transport.base.given, self@.stream.path),
                ),
                subscribe_query(self@.offset),
            ),
    {
        let mut built = match self.stream.transport.request(
            Method::Get,
            self.stream.path.as_str(),
        ) {
            Ok(built) => built,
            Err(error) => {
                return Err(error);
            },
        };
        ask_to_subscribe(&mut built, &self.offset);
        assert(built@.query =~= subscribe_query(self@.offset));
        Ok(built)
    }

    /// Takes note of a new connection, by the headers of the response.
    pub fn connected(&mut self, headers: &HeaderMap)
        ensures
            final(self)@ == old(self)@.connected(base64_encoded(*headers)),
    {
        proof {
            lemma_header_names();
        }
        self.base64_data = match optional_string(headers, STREAM_SSE_DATA_ENCODING) {
            Some(value) => eq_ignore_ascii_case(value.as_str(), "base64"),
            None => false,
        };
        self.parser = SseParser::new();
        self.should_stop = false;
    }

    /// Follows the checkpoints among the events.
    fn follow(&mut self, events: &Vec<SubscriptionEvent>)
        ensures
            final(self)@ == old(self)@.delivered(old(self)@.parser, event_views(events@)),
    {
        let mut i: usize = events.len();
        proof {
            assert(event_views(events@).take(events.len() as int) =~= event_views(events@));
        }
        while i > 0
            invariant
                i <= events.len(),
                self@ == old(self)@,
                last_checkpoint(event_views(events@)) == last_checkpoint(
                    event_views(events@).take(i as int),
                ),
            decreases i,
        {
            let ghost before = event_views(events@).take(i as int);
            assert(before.drop_last() =~= event_views(events@).take(i - 1));
            i -= 1;
            assert(before.last() == events@[i as int]@);
            if let SubscriptionEvent::Checkpoint(checkpoint) = &events[i] {
                self.offset = checkpoint.next_offset.clone();
                self.should_stop = checkpoint.stream_closed;
                return ;
            }
        }
    }

    /// Takes in a chunk of the connection and hands out the events that it completes. The
    /// subscription then stands where the last checkpoint among them says.
    pub fn chunk<F: Fn(&str) -> Result<ControlPayload, String>>(
        &mut self,
        chunk: &[u8],
        decode_control: &F,
    ) -> (r: Result<Vec<SubscriptionEvent>, Error>)
        requires
            forall|text: &str| call_requires(*decode_control, (text,)),
        ensures
            forall|reading: ControlReading| #[trigger]
                reads_as(*decode_control, reading) ==> (final(self)@, events_result(r)) == old(
                    self,
                )@.with_chunk(chunk@, reading),
            match r {
                Ok(events) => final(self)@ == old(self)@.delivered(
                    final(self)@.parser,
                    event_views(events@),
                ),
                Err(_) => final(self)@ == (SubscriptionView {
                    parser: final(self)@.parser,
                    ..old(self)@
                }),
            },
    {
        let outcome = self.parser.push(
            chunk,
            self.stream.path.as_str(),
            self.base64_data,
            decode_control,
        );
        if let Ok(events) = &outcome {
            self.follow(events);
        }
        outcome
    }

    /// Takes note of the end of the connection, which completes the event under way.
    pub fn body_ended<F: Fn(&str) -> Result<ControlPayload, String>>(
        &mut self,
        decode_control: &F,
    ) -> (r: Result<Vec<SubscriptionEvent>, Error>)
        requires
            forall|text: &str| call_requires(*decode_control, (text,)),
        ensures
            forall|reading: ControlReading| #[trigger]
                reads_as(*decode_control, reading) ==> (final(self)@, events_result(r)) == old(
                    self,
                )@.with_end(reading),
            match r {
                Ok(events) => final(self)@ == old(self)@.delivered(
                    old(self)@.parser.dispatched(),
                    event_views(events@),
                ),
                Err(_) => final(self)@ == (SubscriptionView {
                    parser: old(self)@.parser.dispatched(),
                    ..old(self)@
                }),
            },
    {
        let outcome = self.parser.finish(
            self.stream.path.as_str(),
            self.base64_data,
            decode_control,
        );
        if let Ok(events) = &outcome {
            self.follow(events);
        }
        outcome
    }

    /// Whether the stream is closed, so that no further connection is called for.
    pub fn is_finished(&self) -> (r: bool)
        ensures
            r == self@.should_stop,
    {
        self.should_stop
    }

    /// Where the subscription stands.
    pub fn offset(&self) -> (r: &Offset)
        ensures
            r@ == self@.offset,
    {
        &self.offset
    }

    /// The stream that the subscription follows.
    pub fn stream(&self) -> (r: &DurableStream)
        ensures
            r@ == self@.stream,
    {
        &self.stream
    }
}

proof fn lemma_last_checkpoint_of_both(first: Seq<EventView>, second: Seq<EventView>)
    ensures
        last_checkpoint(first + second) == match last_checkpoint(second) {
            Some(checkpoint) => Some(checkpoint),
            None => last_checkpoint(first),
        },
    decreases second.len(),
{
    if second.len() == 0 {
        assert(first + second =~= first);
    } else {
        assert((first + second).last() == second.last());
        assert((first + second).drop_last() =~= first + second.drop_last());
        lemma_last_checkpoint_of_both(first, second.drop_last());
    }
}

/// Where a subscription stands, and whether it stops, depends on the last checkpoint alone,
/// whatever chunks the events came in.
pub proof fn law_last_checkpoint_decides(
    offset: OffsetView,
    closed: bool,
    first: Seq<EventView>,
    second: Seq<EventView>,
)
    ensures
        offset_after(offset_after(offset, first), second) == offset_after(offset, first + second),
        closed_after(closed_after(closed, first), second) == closed_after(closed, first + second),
{
    lemma_last_checkpoint_of_both(first, second);
}

/// A subscription that connects again asks for what follows the last checkpoint that it handed
/// out, and starts with an empty parser: no part of an event crosses from one connection to the
/// next.
pub proof fn law_reconnects_from_last_checkpoint(
    subscription: SubscriptionView,
    parser: SseState,
    events: Seq<EventView>,
    base64_data: bool,
)
    requires
        last_checkpoint(events) is Some,
    ensures
        ({
            let next = subscription.delivered(parser, events).connected(base64_data);
            &&& subscribe_query(next.offset) == subscribe_query(
                last_checkpoint(events)->0.next_offset,
            )
            &&& next.parser == SseState::initial()
            &&& next.stream == subscription.stream
        }),
{
}

/// Requests for metadata and reads have to be answered in time; those that subscribe may stay
/// open as long as the stream does.
pub proof fn law_only_subscriptions_stay_open(
    transport: TransportView,
    method: Method,
    path: Seq<char>,
    joined: Result<Seq<char>, Seq<char>>,
)
    requires
        joined is Ok,
    ensures
        transport.timed_request(method, path, joined)->Ok_0.timeout == Some(
            transport.request_timeout,
        ),
        transport.open_request(method, path, joined)->Ok_0.timeout is None,
{
}

} // verus!
