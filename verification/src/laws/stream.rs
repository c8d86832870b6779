//! What holds of reads, and of subscriptions.
use crate::error::ErrorView;
use crate::laws::headers::{
    law_header_is_its_first_value, law_names_hold_no_capitals, law_next_offset, printable,
    says_true, spells, text_of_value, value_under,
};
use crate::laws::text::{law_equal_ignoring_case, same_letter};
use crate::protocol::headers::offset_outcome;
use crate::protocol::sse::{ControlReading, ControlView, SseState};
use crate::stream::{
    asking, base64_encoded, closed_after, last_checkpoint, metadata_outcome, offset_after,
    read_outcome, read_query, subscribe_query, StreamView, SubscriptionView,
};
use crate::transport::RequestView;
use crate::types::offset::OffsetView;
use crate::types::read::{MetadataView, ReadMode, ReadRequest, ReadResponseView};
use crate::types::subscription::EventView;
use reqwest::header::HeaderMap;
use vstd::prelude::*;
use vstd::string::*;

verus! {

/// A read hands out the body as it came. It reports the stream as closed exactly where the first
/// value of the one header says so, as up to date exactly where that of the other does, and the
/// texts of the others as they are spelled. It fails exactly where the next offset is missing or
/// not printable.
pub proof fn law_read_reports_its_response(headers: HeaderMap, bytes: Seq<u8>, path: Seq<char>)
    ensures
        match read_outcome(headers, bytes, path) {
            Ok(response) => {
                &&& response.bytes == bytes
                &&& response.stream_closed <==> says_true(value_under(headers, "stream-closed"@))
                &&& response.up_to_date <==> says_true(value_under(headers, "stream-up-to-date"@))
                &&& text_of_value(value_under(headers, "content-type"@), response.content_type)
                &&& text_of_value(value_under(headers, "stream-cursor"@), response.cursor)
                &&& text_of_value(value_under(headers, "etag"@), response.etag)
                &&& value_under(headers, "stream-next-offset"@) matches Some(value) && spells(
                    value,
                    response.next_offset.text(),
                )
                &&& response.next_offset == OffsetView::of_text(response.next_offset.text())
            },
            Err(error) => error == offset_outcome(headers, "GET"@, path)->Err_0,
        },
        read_outcome(headers, bytes, path) is Ok <==> (value_under(headers, "stream-next-offset"@)
            matches Some(value) && printable(value)),
{
    law_names_hold_no_capitals();
    law_next_offset(headers, "GET"@, path);
    law_header_is_its_first_value(headers, "stream-closed"@);
    law_header_is_its_first_value(headers, "stream-up-to-date"@);
    law_header_is_its_first_value(headers, "content-type"@);
    law_header_is_its_first_value(headers, "stream-cursor"@);
    law_header_is_its_first_value(headers, "etag"@);
}

/// Whether a read reports the stream as closed depends on one header alone: responses that differ
/// in others agree on it. The same holds of whether it is up to date.
pub proof fn law_reads_agree_on_what_their_headers_agree_on(
    a: HeaderMap,
    b: HeaderMap,
    a_bytes: Seq<u8>,
    b_bytes: Seq<u8>,
    path: Seq<char>,
)
    requires
        read_outcome(a, a_bytes, path) is Ok,
        read_outcome(b, b_bytes, path) is Ok,
    ensures
        value_under(a, "stream-closed"@) == value_under(b, "stream-closed"@) ==> read_outcome(
            a,
            a_bytes,
            path,
        )->Ok_0.stream_closed == read_outcome(b, b_bytes, path)->Ok_0.stream_closed,
        value_under(a, "stream-up-to-date"@) == value_under(b, "stream-up-to-date"@)
            ==> read_outcome(a, a_bytes, path)->Ok_0.up_to_date == read_outcome(
            b,
            b_bytes,
            path,
        )->Ok_0.up_to_date,
{
    law_read_reports_its_response(a, a_bytes, path);
    law_read_reports_its_response(b, b_bytes, path);
}

/// The metadata of a stream are what the headers of the response say, each by its first value.
/// Asking for them fails exactly where the next offset is missing or not printable.
pub proof fn law_metadata_report_their_response(headers: HeaderMap, path: Seq<char>)
    ensures
        match metadata_outcome(headers, path) {
            Ok(metadata) => {
                &&& metadata.stream_closed <==> says_true(value_under(headers, "stream-closed"@))
                &&& text_of_value(value_under(headers, "content-type"@), metadata.content_type)
                &&& text_of_value(value_under(headers, "etag"@), metadata.etag)
                &&& value_under(headers, "stream-next-offset"@) matches Some(value) && spells(
                    value,
                    metadata.next_offset.text(),
                )
                &&& metadata.next_offset == OffsetView::of_text(metadata.next_offset.text())
            },
            Err(error) => error == offset_outcome(headers, "HEAD"@, path)->Err_0,
        },
        metadata_outcome(headers, path) is Ok <==> (value_under(headers, "stream-next-offset"@)
            matches Some(value) && printable(value)),
{
    law_names_hold_no_capitals();
    law_next_offset(headers, "HEAD"@, path);
    law_header_is_its_first_value(headers, "stream-closed"@);
    law_header_is_its_first_value(headers, "content-type"@);
    law_header_is_its_first_value(headers, "etag"@);
}

/// A response that fails a read says what was asked for: the method and the path.
pub proof fn law_unreadable_responses_are_told_apart(
    headers: HeaderMap,
    bytes: Seq<u8>,
    path: Seq<char>,
)
    ensures
        value_under(headers, "stream-next-offset"@) is None ==> read_outcome(headers, bytes, path)
            == Err::<ReadResponseView, ErrorView>(
            ErrorView::MissingHeader { operation: "GET"@, path, name: "Stream-Next-Offset"@ },
        ) && metadata_outcome(headers, path) == Err::<MetadataView, ErrorView>(
            ErrorView::MissingHeader { operation: "HEAD"@, path, name: "Stream-Next-Offset"@ },
        ),
{
    law_next_offset(headers, "GET"@, path);
    law_next_offset(headers, "HEAD"@, path);
}

/// A read asks for what follows its offset, for a long poll exactly where it is one, and with its
/// cursor where it has one, in this order.
pub proof fn law_query_of_a_read(request: ReadRequest)
    ensures
        ({
            let query = read_query(request);
            let polls = request.mode == ReadMode::LongPoll;
            let count = 1 + (if polls {
                1int
            } else {
                0int
            }) + (if request.cursor is Some {
                1int
            } else {
                0int
            });
            &&& query.len() == count
            &&& query[0] == ("offset"@, request.offset@.text())
            &&& polls ==> query[1] == ("live"@, "long-poll"@)
            &&& request.cursor is Some ==> query[count - 1] == ("cursor"@, request.cursor->0@)
        }),
{
}

/// A subscription asks for events from its offset on.
pub proof fn law_query_of_a_subscription(offset: OffsetView)
    ensures
        subscribe_query(offset).len() == 2,
        subscribe_query(offset)[0] == ("offset"@, offset.text()),
        subscribe_query(offset)[1] == ("live"@, "sse"@),
{
}

/// A query is put into a request that is otherwise as it was.
pub proof fn law_asking_changes_the_query_only(
    outcome: Result<RequestView, ErrorView>,
    query: Seq<(Seq<char>, Seq<char>)>,
)
    ensures
        match outcome {
            Ok(request) => asking(outcome, query) matches Ok(asked) && asked.query == query
                && asked.method == request.method && asked.url == request.url && asked.timeout
                == request.timeout,
            Err(error) => asking(outcome, query) == outcome,
        },
{
}

/// Whether the value is the word `base64`, each letter in either case.
pub open spec fn says_base64(value: Option<Seq<u8>>) -> bool {
    value matches Some(bytes) && bytes.len() == 6 && (bytes[0] == 98 || bytes[0] == 66) && (bytes[1]
        == 97 || bytes[1] == 65) && (bytes[2] == 115 || bytes[2] == 83) && (bytes[3] == 101
        || bytes[3] == 69) && bytes[4] == 54 && bytes[5] == 52
}

/// Data come in base64 exactly where the header of the response says so, in whatever case.
pub proof fn law_encoding_of_data(headers: HeaderMap)
    ensures
        base64_encoded(headers) <==> says_base64(value_under(headers, "stream-sse-data-encoding"@)),
{
    let name = "stream-sse-data-encoding"@;
    law_names_hold_no_capitals();
    law_header_is_its_first_value(headers, name);
    reveal_strlit("base64");
    if let Some(bytes) = value_under(headers, name) {
        if printable(bytes) {
            let text = crate::protocol::headers::header_text(headers, name)->0;
            law_equal_ignoring_case(text, "base64"@);
            if base64_encoded(headers) {
                assert(same_letter(text[0], "base64"@[0]));
                assert(same_letter(text[1], "base64"@[1]));
                assert(same_letter(text[2], "base64"@[2]));
                assert(same_letter(text[3], "base64"@[3]));
                assert(same_letter(text[4], "base64"@[4]));
                assert(same_letter(text[5], "base64"@[5]));
                assert(says_base64(Some(bytes)));
            }
            if says_base64(Some(bytes)) {
                assert forall|i: int| 0 <= i < text.len() implies same_letter(
                    #[trigger] text[i],
                    "base64"@[i],
                ) by {
                    assert(text[i] as u32 == bytes[i]);
                }
            }
        } else if says_base64(Some(bytes)) {
            assert(printable(bytes));
        }
    }
}

/// A new subscription asks for what follows the offset that it was made with, and is not finished.
/// A new connection keeps the offset, and has nothing of the last one.
pub proof fn law_connections_start_afresh(
    stream: StreamView,
    offset: OffsetView,
    subscription: SubscriptionView,
    base64_data: bool,
)
    ensures
        ({
            let fresh = SubscriptionView::initial(stream, offset);
            &&& fresh.stream == stream && fresh.offset == offset && !fresh.should_stop
                && !fresh.base64_data
            &&& fresh.parser.buffer.len() == 0 && fresh.parser.event_type.len() == 0
                && fresh.parser.data_lines.len() == 0
        }),
        ({
            let next = subscription.connected(base64_data);
            &&& next.stream == subscription.stream && next.offset == subscription.offset
                && !next.should_stop && next.base64_data == base64_data
            &&& next.parser.buffer.len() == 0 && next.parser.event_type.len() == 0
                && next.parser.data_lines.len() == 0
        }),
{
}

proof fn lemma_last_checkpoint_at(events: Seq<EventView>, at: int)
    requires
        0 <= at < events.len(),
        events[at] is Checkpoint,
        forall|i: int| at < i < events.len() ==> #[trigger] events[i] is Data,
    ensures
        last_checkpoint(events) == Some(events[at]->Checkpoint_0),
    decreases events.len(),
{
    if at < events.len() - 1 {
        assert(events[events.len() - 1] is Data);
        lemma_last_checkpoint_at(events.drop_last(), at);
    }
}

proof fn lemma_no_checkpoint(events: Seq<EventView>)
    requires
        forall|i: int| 0 <= i < events.len() ==> #[trigger] events[i] is Data,
    ensures
        last_checkpoint(events) is None,
    decreases events.len(),
{
    if events.len() > 0 {
        assert(events[events.len() - 1] is Data);
        lemma_no_checkpoint(events.drop_last());
    }
}

/// After events a subscription stands where the last checkpoint among them says, and is finished
/// exactly where that one says that the stream is closed.
pub proof fn law_subscription_follows_its_last_checkpoint(
    subscription: SubscriptionView,
    parser: SseState,
    events: Seq<EventView>,
    at: int,
)
    requires
        0 <= at < events.len(),
        events[at] is Checkpoint,
        forall|i: int| at < i < events.len() ==> #[trigger] events[i] is Data,
    ensures
        ({
            let checkpoint = events[at]->Checkpoint_0;
            let next = subscription.delivered(parser, events);
            &&& next.offset == checkpoint.next_offset
            &&& next.should_stop <==> checkpoint.stream_closed
            &&& next.stream == subscription.stream && next.base64_data == subscription.base64_data
            &&& next.parser == parser
        }),
{
    lemma_last_checkpoint_at(events, at);
}

/// Events without a checkpoint leave a subscription where it stands.
pub proof fn law_data_do_not_move_a_subscription(
    subscription: SubscriptionView,
    parser: SseState,
    events: Seq<EventView>,
)
    requires
        forall|i: int| 0 <= i < events.len() ==> #[trigger] events[i] is Data,
    ensures
        subscription.delivered(parser, events) == (SubscriptionView { parser, ..subscription }),
        offset_after(subscription.offset, events) == subscription.offset,
        closed_after(subscription.should_stop, events) == subscription.should_stop,
{
    lemma_no_checkpoint(events);
}

/// A subscription is finished after a control event exactly where the payload says that the
/// stream is closed. With a payload that says it is open, or does not say, it goes on, from the
/// offset that the payload names.
pub proof fn law_only_closed_streams_finish(
    subscription: SubscriptionView,
    parser: SseState,
    before: Seq<EventView>,
    payload: ControlView,
)
    ensures
        ({
            let events = before.push(EventView::Checkpoint(payload.checkpoint()));
            let next = subscription.delivered(parser, events);
            &&& next.should_stop <==> payload.stream_closed == Some(true)
            &&& next.offset.text() == payload.stream_next_offset
        }),
{
    let events = before.push(EventView::Checkpoint(payload.checkpoint()));
    lemma_last_checkpoint_at(events, before.len() as int);
    crate::types::offset::law_offset_preserves_text(payload.stream_next_offset);
}

/// A chunk delivers what the parser makes of it. Where that fails, the subscription stands where
/// it stood, and is no more finished than it was.
pub proof fn law_failed_chunks_do_not_move_a_subscription(
    subscription: SubscriptionView,
    chunk: Seq<u8>,
    reading: ControlReading,
)
    ensures
        ({
            let (next, outcome) = subscription.with_chunk(chunk, reading);
            let (parser, parsed) = subscription.parser.with_bytes(chunk).drained(
                subscription.stream.path,
                subscription.base64_data,
                reading,
            );
            &&& outcome == parsed
            &&& next.parser == parser
            &&& next.stream == subscription.stream && next.base64_data == subscription.base64_data
            &&& outcome is Err ==> next.offset == subscription.offset && next.should_stop
                == subscription.should_stop
            &&& outcome matches Ok(events) ==> next == subscription.delivered(parser, events)
        }),
        ({
            let (next, outcome) = subscription.with_end(reading);
            &&& next.stream == subscription.stream
            &&& outcome is Err ==> next.offset == subscription.offset && next.should_stop
                == subscription.should_stop
            &&& outcome matches Ok(events) ==> next == subscription.delivered(
                subscription.parser.dispatched(),
                events,
            )
        }),
{
}

} // verus!
