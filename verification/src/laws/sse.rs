//! What holds of the parsing of server-sent events.
use crate::bindings::base64_decoded;
use crate::error::ErrorView;
use crate::protocol::sse::{
    colon_at, event_bytes, field_name, field_value, finish_outcome,
    law_chunks_do_not_matter, law_written_event_is_dispatched,
    one_line, optional, ControlReading, ControlView, SseState,
};
use crate::text::{joined_lines, without_line_breaks};
use crate::types::offset::{law_offset_preserves_text, OffsetView};
use crate::types::subscription::EventView;
use vstd::prelude::*;
use vstd::string::*;
use vstd::utf8::*;

verus! {

/// A checkpoint says that the stream is closed exactly where the payload says so with the value
/// true. It is up to date where the payload says so, and where the payload does not speak of it
/// and the stream is closed. The offset and the cursor are those of the payload.
pub proof fn law_checkpoint_is_what_the_payload_says(payload: ControlView)
    ensures
        ({
            let checkpoint = payload.checkpoint();
            &&& checkpoint.stream_closed <==> payload.stream_closed == Some(true)
            &&& payload.up_to_date == Some(true) ==> checkpoint.up_to_date
            &&& payload.up_to_date == Some(false) ==> !checkpoint.up_to_date
            &&& payload.up_to_date is None ==> (checkpoint.up_to_date <==> payload.stream_closed
                == Some(true))
            &&& payload.stream_closed != Some(true) ==> (checkpoint.up_to_date
                <==> payload.up_to_date == Some(true))
            &&& checkpoint.cursor == payload.stream_cursor
            &&& checkpoint.next_offset.text() == payload.stream_next_offset
            &&& payload.stream_next_offset == "-1"@ ==> checkpoint.next_offset is Start
            &&& payload.stream_next_offset == "now"@ ==> checkpoint.next_offset is Now
            &&& payload.stream_next_offset != "-1"@ && payload.stream_next_offset != "now"@
                ==> checkpoint.next_offset == OffsetView::Value(payload.stream_next_offset)
        }),
{
    law_offset_preserves_text(payload.stream_next_offset);
    reveal_strlit("-1");
    reveal_strlit("now");
    assert("-1"@.len() == 2 && "now"@.len() == 3);
}

/// Payloads that agree on one field agree on what the checkpoint makes of it, whatever the other
/// fields say.
pub proof fn law_fields_of_a_payload_are_independent(a: ControlView, b: ControlView)
    ensures
        a.stream_closed == b.stream_closed ==> a.checkpoint().stream_closed
            == b.checkpoint().stream_closed,
        a.stream_next_offset == b.stream_next_offset ==> a.checkpoint().next_offset
            == b.checkpoint().next_offset,
        a.stream_cursor == b.stream_cursor ==> a.checkpoint().cursor == b.checkpoint().cursor,
        a.up_to_date is Some && a.up_to_date == b.up_to_date ==> a.checkpoint().up_to_date
            == b.checkpoint().up_to_date,
{
}

/// An event delivers what its type calls for: a data event its lines, or what they decode to; a
/// control event the checkpoint that they read as; any other event nothing.
pub proof fn law_events_deliver_by_their_type(
    state: SseState,
    path: Seq<char>,
    base64: bool,
    reading: ControlReading,
)
    ensures
        ({
            let text = joined_lines(state.data_lines);
            let delivery = state.delivery(path, base64, reading);
            &&& state.event_type == "data"@ && !base64 ==> delivery == Ok::<
                Option<EventView>,
                ErrorView,
            >(Some(EventView::Data(encode_utf8(text))))
            &&& state.event_type == "data"@ && base64 ==> match base64_decoded(
                without_line_breaks(text),
            ) {
                Ok(bytes) => delivery == Ok::<Option<EventView>, ErrorView>(
                    Some(EventView::Data(bytes)),
                ),
                Err(message) => delivery == Err::<Option<EventView>, ErrorView>(
                    ErrorView::InvalidSse { path, reason: "invalid base64 SSE data: "@ + message },
                ),
            }
            &&& state.event_type == "control"@ ==> match reading(text) {
                Ok(payload) => delivery == Ok::<Option<EventView>, ErrorView>(
                    Some(EventView::Checkpoint(payload.checkpoint())),
                ),
                Err(message) => delivery == Err::<Option<EventView>, ErrorView>(
                    ErrorView::InvalidSse { path, reason: "invalid control event JSON: "@ + message },
                ),
            }
            &&& state.event_type != "data"@ && state.event_type != "control"@ ==> delivery == Ok::<
                Option<EventView>,
                ErrorView,
            >(None)
        }),
{
    reveal_strlit("data");
    reveal_strlit("control");
    assert("data"@.len() == 4 && "control"@.len() == 7);
}

/// The end of the input delivers the event that is under way, as an empty line would, and leaves
/// none under way.
pub proof fn law_end_completes_the_event(
    state: SseState,
    path: Seq<char>,
    base64: bool,
    reading: ControlReading,
)
    ensures
        match state.delivery(path, base64, reading) {
            Ok(Some(event)) => finish_outcome(state, path, base64, reading) == Ok::<
                Seq<EventView>,
                ErrorView,
            >(seq![event]),
            Ok(None) => finish_outcome(state, path, base64, reading) == Ok::<
                Seq<EventView>,
                ErrorView,
            >(Seq::empty()),
            Err(error) => finish_outcome(state, path, base64, reading) == Err::<
                Seq<EventView>,
                ErrorView,
            >(error),
        },
        state.dispatched().event_type.len() == 0,
        state.dispatched().data_lines.len() == 0,
        state.dispatched().buffer == state.buffer,
{
}

/// A parser starts with nothing, and bytes go behind those that it holds.
pub proof fn law_bytes_go_behind(state: SseState, bytes: Seq<u8>)
    ensures
        SseState::initial().buffer.len() == 0,
        SseState::initial().event_type.len() == 0,
        SseState::initial().data_lines.len() == 0,
        state.with_bytes(bytes).buffer == state.buffer + bytes,
        state.with_bytes(bytes).event_type == state.event_type,
        state.with_bytes(bytes).data_lines == state.data_lines,
{
}

/// The text without the one space that it starts with, if it does.
pub open spec fn without_space(text: Seq<char>) -> Seq<char> {
    if text.len() > 0 && text[0] == ' ' {
        text.skip(1)
    } else {
        text
    }
}

proof fn lemma_colon(line: Seq<char>, i: int, at: int)
    requires
        0 <= i <= at <= line.len(),
        forall|j: int| i <= j < at ==> #[trigger] line[j] != ':',
        at < line.len() ==> line[at] == ':',
    ensures
        colon_at(line, i) == at,
    decreases at - i,
{
    if i < at {
        lemma_colon(line, i + 1, at);
    }
}

/// A line is split at its first colon, behind which one space does not count. A line without a
/// colon is the name of a field without a value.
pub proof fn law_line_is_split_at_its_first_colon(name: Seq<char>, value: Seq<char>)
    requires
        !name.contains(':'),
    ensures
        field_name(name + seq![':'] + value) == name,
        field_value(name + seq![':'] + value) == without_space(value),
        field_name(name) == name,
        field_value(name) == Seq::<char>::empty(),
{
    let line = name + seq![':'] + value;
    let at = name.len() as int;
    assert forall|j: int| 0 <= j < at implies #[trigger] line[j] != ':' by {
        assert(name.contains(name[j]));
        assert(line[j] == name[j]);
    }
    assert(line[at] == ':');
    lemma_colon(line, 0, at);
    assert forall|j: int| 0 <= j < at implies #[trigger] name[j] != ':' by {
        assert(name.contains(name[j]));
    }
    lemma_colon(name, 0, at);
    assert(line.take(at) =~= name);
    assert(name.take(at) =~= name);
    if value.len() > 0 {
        assert(line[at + 1] == value[0]);
        if value[0] == ' ' {
            assert(line.skip(at + 2) =~= value.skip(1));
        } else {
            assert(line.skip(at + 1) =~= value);
        }
    } else {
        assert(line.skip(at + 1) =~= value);
    }
}

/// Whether the states differ in their type and their data lines at most as said.
pub open spec fn holds(
    next: SseState,
    state: SseState,
    event_type: Seq<char>,
    data_lines: Seq<Seq<char>>,
) -> bool {
    next.buffer == state.buffer && next.event_type == event_type && next.data_lines == data_lines
}

/// A line with the type of the event replaces the type, one with data adds to the data, and each
/// leaves the other alone. The last type counts, and the data stay in order.
pub proof fn law_fields_build_the_event(state: SseState, value: Seq<char>)
    ensures
        holds(
            state.after_line(encode_utf8("event"@ + seq![':'] + value)),
            state,
            without_space(value),
            state.data_lines,
        ),
        holds(
            state.after_line(encode_utf8("data"@ + seq![':'] + value)),
            state,
            state.event_type,
            state.data_lines.push(without_space(value)),
        ),
        holds(state.after_line(encode_utf8("event"@)), state, Seq::empty(), state.data_lines),
        holds(
            state.after_line(encode_utf8("data"@)),
            state,
            state.event_type,
            state.data_lines.push(Seq::empty()),
        ),
{
    reveal_strlit("event");
    reveal_strlit("data");
    assert("event"@.len() == 5 && "data"@.len() == 4);
    assert(!"event"@.contains(':') && !"data"@.contains(':'));
    law_line_is_split_at_its_first_colon("event"@, value);
    law_line_is_split_at_its_first_colon("data"@, value);
    lemma_line_reads("event"@ + seq![':'] + value);
    lemma_line_reads("data"@ + seq![':'] + value);
    lemma_line_reads("event"@);
    lemma_line_reads("data"@);
    assert(("event"@ + seq![':'] + value)[0] == 'e');
    assert(("data"@ + seq![':'] + value)[0] == 'd');
}

proof fn lemma_line_reads(text: Seq<char>)
    ensures
        valid_utf8(encode_utf8(text)),
        decode_utf8(encode_utf8(text)) == text,
{
    encode_utf8_valid_utf8(text);
    encode_utf8_decode_utf8(text);
}

/// Comments, and fields with other names, change nothing.
pub proof fn law_other_fields_change_nothing(state: SseState, name: Seq<char>, rest: Seq<char>)
    requires
        !name.contains(':'),
        name.len() > 0,
        name != "event"@,
        name != "data"@,
    ensures
        state.after_line(encode_utf8(name + seq![':'] + rest)) == state,
        state.after_line(encode_utf8(name)) == state,
        state.after_line(encode_utf8(seq![':'] + rest)) == state,
{
    law_line_is_split_at_its_first_colon(name, rest);
    lemma_line_reads(name + seq![':'] + rest);
    lemma_line_reads(name);
    lemma_line_reads(seq![':'] + rest);
    assert((seq![':'] + rest)[0] == ':');
}

/// An empty line dispatches the event, any other delivers nothing, and one that is no text fails
/// and changes nothing.
pub proof fn law_empty_lines_dispatch(
    state: SseState,
    text: Seq<char>,
    line: Seq<u8>,
    path: Seq<char>,
    base64: bool,
    reading: ControlReading,
)
    ensures
        state.line_delivery(Seq::empty(), path, base64, reading) == state.delivery(
            path,
            base64,
            reading,
        ),
        holds(state.after_line(Seq::empty()), state, Seq::empty(), Seq::empty()),
        text.len() > 0 ==> state.line_delivery(encode_utf8(text), path, base64, reading) == Ok::<
            Option<EventView>,
            ErrorView,
        >(None),
        !valid_utf8(line) ==> state.after_line(line) == state && state.line_delivery(
            line,
            path,
            base64,
            reading,
        ) == Err::<Option<EventView>, ErrorView>(
            ErrorView::InvalidSse { path, reason: "event stream was not valid UTF-8"@ },
        ),
{
    lemma_line_reads(text);
    let none = Seq::<char>::empty();
    lemma_line_reads(none);
    assert(encode_utf8(none) =~= Seq::<u8>::empty());
}

/// Events come out in the order in which they came in. After whole lines, the events of what
/// follows stand behind theirs, and a failure of either takes the place of all events.
pub proof fn law_events_come_in_order(
    state: SseState,
    first: Seq<u8>,
    second: Seq<u8>,
    path: Seq<char>,
    base64: bool,
    reading: ControlReading,
)
    requires
        first.len() > 0,
        first.last() == 10,
    ensures
        ({
            let (middle, earlier) = state.with_bytes(first).drained(path, base64, reading);
            let (end, later) = middle.with_bytes(second).drained(path, base64, reading);
            let (last, all) = state.with_bytes(first + second).drained(path, base64, reading);
            &&& earlier is Ok && later is Ok ==> last == end && all == Ok::<
                Seq<EventView>,
                ErrorView,
            >(earlier->Ok_0 + later->Ok_0)
            &&& earlier is Err ==> all == earlier
            &&& earlier is Ok && later is Err ==> all == later
        }),
{
    assert((state.buffer + first).last() == 10);
    law_chunks_do_not_matter(state, first, second, path, base64, reading);
}

/// What a server writes as a control event is delivered as the checkpoint that it reads as.
pub proof fn law_written_control_is_delivered(
    line: Seq<char>,
    path: Seq<char>,
    base64: bool,
    reading: ControlReading,
    payload: ControlView,
)
    requires
        one_line(line),
        reading(line) == Ok::<ControlView, Seq<char>>(payload),
    ensures
        SseState::initial().with_bytes(event_bytes("control"@, seq![line])).drained(
            path,
            base64,
            reading,
        ).1 == Ok::<Seq<EventView>, ErrorView>(seq![EventView::Checkpoint(payload.checkpoint())]),
{
    reveal_strlit("control");
    assert(one_line("control"@));
    law_written_event_is_dispatched("control"@, seq![line], path, base64, reading);
    let state = SseState {
        event_type: "control"@,
        data_lines: seq![line],
        ..SseState::initial()
    };
    law_events_deliver_by_their_type(state, path, base64, reading);
    assert(joined_lines(seq![line]) == line);
    assert(optional(Some(EventView::Checkpoint(payload.checkpoint()))) =~= seq![
        EventView::Checkpoint(payload.checkpoint()),
    ]);
}

} // verus!
