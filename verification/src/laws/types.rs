//! What holds of the values of the protocol.
use crate::bridge::StreamRuntime;
use crate::error::{Error, ErrorView, HttpError};
use crate::kafka::BridgeRecord;
use crate::protocol::sse::ControlPayload;
use crate::time::{longest, shorter};
use crate::transport::{pair_views, HttpRequest};
use crate::types::offset::{Offset, OffsetView};
use crate::types::read::{ReadResponse, StreamMetadata};
use crate::types::stream_path::{path_fault, path_outcome};
use crate::types::subscription::{StreamCheckpoint, SubscriptionEvent};
use vstd::prelude::*;
use vstd::string::*;

verus! {

/// Two texts are reserved: one for the start of a stream, and one for its end at the time of
/// asking. Any other text is a value that is kept as it is.
pub proof fn law_offset_texts(text: Seq<char>)
    ensures
        OffsetView::of_text("-1"@) == OffsetView::Start,
        OffsetView::of_text("now"@) == OffsetView::Now,
        text != "-1"@ && text != "now"@ ==> OffsetView::of_text(text) == OffsetView::Value(text),
        OffsetView::Start.text() == "-1"@,
        OffsetView::Now.text() == "now"@,
        OffsetView::Value(text).text() == text,
{
    reveal_strlit("-1");
    reveal_strlit("now");
    assert("-1"@.len() == 2 && "now"@.len() == 3);
}

/// A stream path is a text that starts with a slash, and it is taken as it is. Any other text is
/// refused, with the text in the failure.
pub proof fn law_stream_paths(path: Seq<char>)
    ensures
        path.len() > 0 && path[0] == '/' ==> path_fault(path) is None && path_outcome(path) == Ok::<
            Seq<char>,
            ErrorView,
        >(path),
        path.len() == 0 ==> path_outcome(path) == Err::<Seq<char>, ErrorView>(
            ErrorView::InvalidStreamPath { path, reason: "path cannot be empty"@ },
        ),
        path.len() > 0 && path[0] != '/' ==> path_outcome(path) == Err::<Seq<char>, ErrorView>(
            ErrorView::InvalidStreamPath { path, reason: "path must start with `/`"@ },
        ),
{
}

/// The shorter of two spans is one of them and exceeds neither; the longest span has all seconds
/// that 64 bits can count, and a nanosecond less than one more.
pub proof fn law_spans(a: nat, b: nat)
    ensures
        shorter(a, b) <= a && shorter(a, b) <= b,
        shorter(a, b) == a || shorter(a, b) == b,
        longest() == 18_446_744_073_709_551_615_999_999_999,
{
}

/// What an offset stands for is what it says.
pub proof fn law_offset_is_seen_as_it_is(offset: Offset)
    ensures
        offset is Start <==> offset@ is Start,
        offset is Now <==> offset@ is Now,
        offset matches Offset::Value(value) ==> offset@ == OffsetView::Value(value@),
{
}

/// What a checkpoint stands for is what its fields say.
pub proof fn law_checkpoint_is_seen_as_it_is(checkpoint: StreamCheckpoint)
    ensures
        checkpoint@.next_offset == checkpoint.next_offset@,
        checkpoint@.cursor is Some <==> checkpoint.cursor is Some,
        checkpoint.cursor is Some ==> checkpoint@.cursor->0 == checkpoint.cursor->0@,
        checkpoint@.up_to_date == checkpoint.up_to_date,
        checkpoint@.stream_closed == checkpoint.stream_closed,
{
}

/// What an event stands for is what it carries.
pub proof fn law_event_is_seen_as_it_is(event: SubscriptionEvent)
    ensures
        match event {
            SubscriptionEvent::Data(bytes) => event@ is Data && event@->Data_0 == bytes@,
            SubscriptionEvent::Checkpoint(checkpoint) => event@ is Checkpoint
                && event@->Checkpoint_0 == checkpoint@,
        },
{
}

/// What a control payload stands for is what its fields say.
pub proof fn law_control_payload_is_seen_as_it_is(payload: ControlPayload)
    ensures
        payload@.stream_next_offset == payload.stream_next_offset@,
        payload@.stream_cursor is Some <==> payload.stream_cursor is Some,
        payload.stream_cursor is Some ==> payload@.stream_cursor->0 == payload.stream_cursor->0@,
        payload@.up_to_date == payload.up_to_date,
        payload@.stream_closed == payload.stream_closed,
{
}

/// What the answer to a read stands for is what its fields say.
pub proof fn law_read_response_is_seen_as_it_is(response: ReadResponse)
    ensures
        response@.bytes == response.bytes@,
        response@.next_offset == response.next_offset@,
        response@.up_to_date == response.up_to_date,
        response@.stream_closed == response.stream_closed,
        response@.content_type is Some <==> response.content_type is Some,
        response.content_type is Some ==> response@.content_type->0 == response.content_type->0@,
        response@.cursor is Some <==> response.cursor is Some,
        response.cursor is Some ==> response@.cursor->0 == response.cursor->0@,
        response@.etag is Some <==> response.etag is Some,
        response.etag is Some ==> response@.etag->0 == response.etag->0@,
{
}

/// What metadata stand for is what their fields say.
pub proof fn law_metadata_are_seen_as_they_are(metadata: StreamMetadata)
    ensures
        metadata@.next_offset == metadata.next_offset@,
        metadata@.stream_closed == metadata.stream_closed,
        metadata@.content_type is Some <==> metadata.content_type is Some,
        metadata.content_type is Some ==> metadata@.content_type->0 == metadata.content_type->0@,
        metadata@.etag is Some <==> metadata.etag is Some,
        metadata.etag is Some ==> metadata@.etag->0 == metadata.etag->0@,
{
}

/// What a failed response stands for is what its fields say.
pub proof fn law_http_error_is_seen_as_it_is(error: HttpError)
    ensures
        error@.operation == error.operation@,
        error@.path == error.path@,
        error@.status == error.status@,
        error@.kind == error.kind,
        error@.stream_closed == error.stream_closed,
        error@.message is Some <==> error.message is Some,
        error.message is Some ==> error@.message->0 == error.message->0@,
        error@.retry_after is Some <==> error.retry_after is Some,
        error.retry_after is Some ==> error@.retry_after->0 == error.retry_after->0@,
        error@.next_offset is Some <==> error.next_offset is Some,
        error.next_offset is Some ==> error@.next_offset->0 == error.next_offset->0@,
        Error::Http(error)@ == ErrorView::Http(error@),
{
}

/// What a request stands for is what its fields say.
pub proof fn law_request_is_seen_as_it_is(request: HttpRequest, i: int)
    ensures
        request@.method == request.method,
        request@.url == request.url@,
        request@.query.len() == request.query@.len(),
        0 <= i < request.query@.len() ==> request@.query[i] == (
            request.query@[i].0@,
            request.query@[i].1@,
        ),
        request@.timeout is Some <==> request.timeout is Some,
        request.timeout is Some ==> request@.timeout->0 == request.timeout->0@,
        pair_views(request.query@) == request@.query,
{
}

/// What a record stands for is what its fields say.
pub proof fn law_record_is_seen_as_it_is(record: BridgeRecord)
    ensures
        record@.topic == record.topic@,
        record@.key == record.key@,
        record@.payload == record.payload@,
        record@.stream_path == record.stream_path@,
        record@.next_offset == record.next_offset@,
{
}

/// What a stream that is forwarded stands for is what its fields say.
pub proof fn law_runtime_is_seen_as_it_is(runtime: StreamRuntime)
    ensures
        runtime@.path == runtime.path@,
        runtime@.topic == runtime.topic@,
        runtime@.start_offset == runtime.start_offset@,
{
}

} // verus!
