//! Parsing of server-sent events.
use crate::bindings::{
    buffer_bytes, buffer_extend, buffer_new, buffer_split_to, buffered, decode_base64, utf8_text,
};
use crate::bindings::base64_decoded;
use crate::error::{Error, ErrorView};
use crate::text::{
    chars_of, concat, join_lines, joined_lines, opt_view, remove_line_breaks, same_text, string_of,
    views, without_line_breaks,
};
use crate::types::offset::{law_offset_preserves_text, Offset, OffsetView};
use crate::types::subscription::{
    event_views, CheckpointView, EventView, StreamCheckpoint, SubscriptionEvent,
};
use bytes::BytesMut;
use vstd::prelude::*;
use vstd::slice::slice_subrange;
use vstd::string::*;
use vstd::utf8::*;

verus! {

/// The payload of a control event.
#[derive(Debug)]
pub struct ControlPayload {
    pub stream_next_offset: String,
    pub stream_cursor: Option<String>,
    pub up_to_date: Option<bool>,
    pub stream_closed: Option<bool>,
}

/// What a [`ControlPayload`] stands for.
pub ghost struct ControlView {
    pub stream_next_offset: Seq<char>,
    pub stream_cursor: Option<Seq<char>>,
    pub up_to_date: Option<bool>,
    pub stream_closed: Option<bool>,
}

impl View for ControlPayload {
    type V = ControlView;

    open spec fn view(&self) -> ControlView {
        ControlView {
            stream_next_offset: self.stream_next_offset@,
            stream_cursor: opt_view(self.stream_cursor),
            up_to_date: self.up_to_date,
            stream_closed: self.stream_closed,
        }
    }
}

impl ControlView {
    /// The checkpoint that the payload announces. A stream is open unless it is said to be closed,
    /// and a closed one is up to date unless it is said not to be.
    pub open spec fn checkpoint(self) -> CheckpointView {
        let closed = self.stream_closed == Some(true);
        CheckpointView {
            next_offset: OffsetView::of_text(self.stream_next_offset),
            cursor: self.stream_cursor,
            up_to_date: match self.up_to_date {
                Some(up_to_date) => up_to_date,
                None => closed,
            },
            stream_closed: closed,
        }
    }
}

/// How the JSON text of a control event reads: its payload, or what is wrong with the text.
pub type ControlReading = spec_fn(Seq<char>) -> Result<ControlView, Seq<char>>;

/// The outcome `r`, seen through the views of its values.
pub open spec fn control_result(r: Result<ControlPayload, String>) -> Result<
    ControlView,
    Seq<char>,
> {
    match r {
        Ok(payload) => Ok(payload@),
        Err(message) => Err(message@),
    }
}

/// Whether `decode` reads control events as `reading` says.
pub open spec fn reads_as<F: Fn(&str) -> Result<ControlPayload, String>>(
    decode: F,
    reading: ControlReading,
) -> bool {
    forall|text: &str, r: Result<ControlPayload, String>|
        #[trigger] call_ensures(decode, (text,), r) ==> control_result(r) == reading(text@)
}

/// What a parser holds between two chunks: the bytes of the line that has not ended, and the type
/// and the data lines of the event that has not ended.
#[verifier::ext_equal]
pub ghost struct SseState {
    pub buffer: Seq<u8>,
    pub event_type: Seq<char>,
    pub data_lines: Seq<Seq<char>>,
}

/// The first position from `i` on at which a line ends, or the length of `bytes`.
pub open spec fn line_end(bytes: Seq<u8>, i: int) -> int
    decreases bytes.len() - i,
{
    if i >= bytes.len() {
        bytes.len() as int
    } else if bytes[i] == 10 || bytes[i] == 13 {
        i
    } else {
        line_end(bytes, i + 1)
    }
}

/// The number of bytes that end the line at `i`: two for a carriage return that a line feed
/// follows, else one.
pub open spec fn ending_len(bytes: Seq<u8>, i: int) -> int {
    if bytes[i] == 13 && i + 1 < bytes.len() && bytes[i + 1] == 10 {
        2
    } else {
        1
    }
}

/// The first position from `i` on at which a colon stands, or the length of `line`.
pub open spec fn colon_at(line: Seq<char>, i: int) -> int
    decreases line.len() - i,
{
    if i >= line.len() {
        line.len() as int
    } else if line[i] == ':' {
        i
    } else {
        colon_at(line, i + 1)
    }
}

/// The name of the field that a line holds: what stands before the first colon.
pub open spec fn field_name(line: Seq<char>) -> Seq<char> {
    line.take(colon_at(line, 0))
}

/// The value of the field that a line holds: what stands behind the first colon, without one
/// space at its start.
pub open spec fn field_value(line: Seq<char>) -> Seq<char> {
    let at = colon_at(line, 0);
    if at >= line.len() {
        Seq::empty()
    } else if at + 1 < line.len() && line[at + 1] == ' ' {
        line.skip(at + 2)
    } else {
        line.skip(at + 1)
    }
}

/// What a data event delivers, where `decoded` is what its base64 text decodes to.
pub open spec fn decoded_outcome(path: Seq<char>, decoded: Result<Seq<u8>, Seq<char>>) -> Result<
    Option<EventView>,
    ErrorView,
> {
    match decoded {
        Ok(bytes) => Ok(Some(EventView::Data(bytes))),
        Err(message) => Err(
            ErrorView::InvalidSse { path, reason: "invalid base64 SSE data: "@ + message },
        ),
    }
}

/// What a control event delivers, where `read` is how its JSON text reads.
pub open spec fn control_outcome(path: Seq<char>, read: Result<ControlView, Seq<char>>) -> Result<
    Option<EventView>,
    ErrorView,
> {
    match read {
        Ok(payload) => Ok(Some(EventView::Checkpoint(payload.checkpoint()))),
        Err(message) => Err(
            ErrorView::InvalidSse { path, reason: "invalid control event JSON: "@ + message },
        ),
    }
}

impl SseState {
    /// The state before the first chunk.
    pub open spec fn initial() -> SseState {
        SseState { buffer: Seq::empty(), event_type: Seq::empty(), data_lines: Seq::empty() }
    }

    /// The state with `bytes` behind what is buffered.
    pub open spec fn with_bytes(self, bytes: Seq<u8>) -> SseState {
        SseState { buffer: self.buffer + bytes, ..self }
    }

    /// The state once the pending event has been dispatched.
    pub open spec fn dispatched(self) -> SseState {
        SseState { event_type: Seq::empty(), data_lines: Seq::empty(), ..self }
    }

    /// What dispatching the pending event delivers.
    pub open spec fn delivery(self, path: Seq<char>, base64: bool, reading: ControlReading) -> Result<
        Option<EventView>,
        ErrorView,
    > {
        let data = joined_lines(self.data_lines);
        if self.event_type == "data"@ {
            if base64 {
                decoded_outcome(path, base64_decoded(without_line_breaks(data)))
            } else {
                Ok(Some(EventView::Data(encode_utf8(data))))
            }
        } else if self.event_type == "control"@ {
            control_outcome(path, reading(data))
        } else {
            Ok(None)
        }
    }

    /// The state once the line has been taken in.
    pub open spec fn after_line(self, line: Seq<u8>) -> SseState {
        let text = decode_utf8(line);
        if !valid_utf8(line) {
            self
        } else if text.len() == 0 {
            self.dispatched()
        } else if text[0] == ':' {
            self
        } else if field_name(text) == "event"@ {
            SseState { event_type: field_value(text), ..self }
        } else if field_name(text) == "data"@ {
            SseState { data_lines: self.data_lines.push(field_value(text)), ..self }
        } else {
            self
        }
    }

    /// What taking in the line delivers: an empty line dispatches the pending event.
    pub open spec fn line_delivery(
        self,
        line: Seq<u8>,
        path: Seq<char>,
        base64: bool,
        reading: ControlReading,
    ) -> Result<Option<EventView>, ErrorView> {
        if !valid_utf8(line) {
            Err(ErrorView::InvalidSse { path, reason: "event stream was not valid UTF-8"@ })
        } else if decode_utf8(line).len() == 0 {
            self.delivery(path, base64, reading)
        } else {
            Ok(None)
        }
    }

    /// Whether a line of the buffer has ended.
    pub open spec fn has_line(self) -> bool {
        line_end(self.buffer, 0) < self.buffer.len()
    }

    /// The first line of the buffer.
    pub open spec fn first_line(self) -> Seq<u8> {
        self.buffer.take(line_end(self.buffer, 0))
    }

    /// The state without the first line of the buffer.
    pub open spec fn without_line(self) -> SseState {
        let end = line_end(self.buffer, 0);
        SseState { buffer: self.buffer.skip(end + ending_len(self.buffer, end)), ..self }
    }

    /// The state once every line of the buffer that has ended has been taken in, up to the first
    /// that fails, and what that delivers.
    pub open spec fn drained(self, path: Seq<char>, base64: bool, reading: ControlReading) -> (
        SseState,
        Result<Seq<EventView>, ErrorView>,
    )
        decreases self.buffer.len(),
    {
        if !self.has_line() {
            (self, Ok(Seq::empty()))
        } else {
            proof {
                lemma_line_end(self.buffer, 0);
            }
            let next = self.without_line().after_line(self.first_line());
            match self.without_line().line_delivery(self.first_line(), path, base64, reading) {
                Err(error) => (next, Err(error)),
                Ok(event) => {
                    let (end, rest) = next.drained(path, base64, reading);
                    match rest {
                        Err(error) => (end, Err(error)),
                        Ok(events) => (end, Ok(optional(event) + events)),
                    }
                },
            }
        }
    }
}

/// Whether draining the buffer comes out the same however control events read.
pub open spec fn needs_no_reading(state: SseState, path: Seq<char>, base64: bool) -> bool {
    forall|a: ControlReading, b: ControlReading|
        #![trigger state.drained(path, base64, a), state.drained(path, base64, b)]
        state.drained(path, base64, a) == state.drained(path, base64, b)
}

/// The event as a sequence of at most one.
pub open spec fn optional(event: Option<EventView>) -> Seq<EventView> {
    match event {
        Some(e) => seq![e],
        None => Seq::empty(),
    }
}

/// Where a line ends: no earlier byte ends one.
pub proof fn lemma_line_end(bytes: Seq<u8>, i: int)
    requires
        0 <= i <= bytes.len(),
    ensures
        i <= line_end(bytes, i) <= bytes.len(),
        forall|j: int| i <= j < line_end(bytes, i) ==> bytes[j] != 10 && bytes[j] != 13,
        line_end(bytes, i) < bytes.len() ==> bytes[line_end(bytes, i)] == 10 || bytes[line_end(
            bytes,
            i,
        )] == 13,
    decreases bytes.len() - i,
{
    if i < bytes.len() && bytes[i] != 10 && bytes[i] != 13 {
        lemma_line_end(bytes, i + 1);
    }
}

proof fn lemma_colon_at(line: Seq<char>, i: int)
    requires
        0 <= i <= line.len(),
    ensures
        i <= colon_at(line, i) <= line.len(),
    decreases line.len() - i,
{
    if i < line.len() && line[i] != ':' {
        lemma_colon_at(line, i + 1);
    }
}

/// The outcome `drained` with `events` before what it delivers.
pub open spec fn preceded_by(
    events: Seq<EventView>,
    drained: (SseState, Result<Seq<EventView>, ErrorView>),
) -> (SseState, Result<Seq<EventView>, ErrorView>) {
    match drained.1 {
        Ok(more) => (drained.0, Ok(events + more)),
        Err(error) => (drained.0, Err(error)),
    }
}

proof fn lemma_drained_step(
    state: SseState,
    path: Seq<char>,
    base64: bool,
    reading: ControlReading,
)
    requires
        state.has_line(),
    ensures
        ({
            let line = state.first_line();
            let next = state.without_line().after_line(line);
            state.drained(path, base64, reading) == match state.without_line().line_delivery(
                line,
                path,
                base64,
                reading,
            ) {
                Err(error) => (next, Err(error)),
                Ok(event) => preceded_by(optional(event), next.drained(path, base64, reading)),
            }
        }),
{
    lemma_line_end(state.buffer, 0);
}

proof fn lemma_preceded_twice(
    first: Seq<EventView>,
    second: Seq<EventView>,
    drained: (SseState, Result<Seq<EventView>, ErrorView>),
)
    ensures
        preceded_by(first, preceded_by(second, drained)) == preceded_by(first + second, drained),
{
    if let Ok(more) = drained.1 {
        assert(first + (second + more) =~= (first + second) + more);
    }
}

proof fn lemma_preceded_injective(
    events: Seq<EventView>,
    a: (SseState, Result<Seq<EventView>, ErrorView>),
    b: (SseState, Result<Seq<EventView>, ErrorView>),
)
    requires
        preceded_by(events, a) == preceded_by(events, b),
    ensures
        a == b,
{
    if a.1 is Ok && b.1 is Ok {
        let x = a.1->Ok_0;
        let y = b.1->Ok_0;
        assert((events + x).skip(events.len() as int) =~= x);
        assert((events + y).skip(events.len() as int) =~= y);
    }
}

/// Where the outcome does not depend on how control events read, no control event is dispatched
/// next, and what follows does not depend on it either.
proof fn lemma_needs_no_reading_step(state: SseState, path: Seq<char>, base64: bool)
    requires
        state.has_line(),
        needs_no_reading(state, path, base64),
    ensures
        state.first_line().len() > 0 || state.event_type != "control"@,
        forall|reading: ControlReading|
            (#[trigger] state.without_line().line_delivery(
                state.first_line(),
                path,
                base64,
                reading,
            )) is Ok ==> needs_no_reading(
                state.without_line().after_line(state.first_line()),
                path,
                base64,
            ),
{
    let line = state.first_line();
    let rest = state.without_line();
    let next = rest.after_line(line);
    let a: ControlReading = |text: Seq<char>| Err(Seq::empty());
    let b: ControlReading = |text: Seq<char>| Err(seq!['?']);
    reveal_strlit("data");
    reveal_strlit("control");
    assert("data"@.len() == 4 && "control"@.len() == 7);
    if line.len() == 0 && state.event_type == "control"@ {
        lemma_drained_step(state, path, base64, a);
        lemma_drained_step(state, path, base64, b);
        assert(state.drained(path, base64, a) == state.drained(path, base64, b));
        let prefix = "invalid control event JSON: "@;
        assert((prefix + Seq::<char>::empty()).len() != (prefix + seq!['?']).len());
        assert(false);
    }
    assert forall|reading: ControlReading|
        (#[trigger] rest.line_delivery(line, path, base64, reading)) is Ok implies needs_no_reading(
        next,
        path,
        base64,
    ) by {
        let event = rest.line_delivery(line, path, base64, reading)->Ok_0;
        assert forall|c: ControlReading, d: ControlReading|
            #![trigger next.drained(path, base64, c), next.drained(path, base64, d)]
            next.drained(path, base64, c) == next.drained(path, base64, d) by {
            lemma_drained_step(state, path, base64, c);
            lemma_drained_step(state, path, base64, d);
            if line.len() > 0 && valid_utf8(line) {
                decode_utf8_encode_utf8(line);
            }
            assert(rest.line_delivery(line, path, base64, c) == Ok::<Option<EventView>, ErrorView>(
                event,
            ));
            assert(rest.line_delivery(line, path, base64, d) == Ok::<Option<EventView>, ErrorView>(
                event,
            ));
            assert(state.drained(path, base64, c) == state.drained(path, base64, d));
            lemma_preceded_injective(
                optional(event),
                next.drained(path, base64, c),
                next.drained(path, base64, d),
            );
        }
    }
}

/// The end of the first line and the length of what ends it, if a line has ended.
fn next_line(bytes: &[u8]) -> (r: Option<(usize, usize)>)
    ensures
        match r {
            Some((line, ending)) => line == line_end(bytes@, 0) && ending == ending_len(
                bytes@,
                line as int,
            ) && line + ending <= bytes@.len() && line + ending <= usize::MAX,
            None => line_end(bytes@, 0) >= bytes@.len(),
        },
{
    let mut index: usize = 0;
    while index < bytes.len()
        invariant
            index <= bytes@.len(),
            line_end(bytes@, 0) == line_end(bytes@, index as int),
        decreases bytes.len() - index,
    {
        if bytes[index] == 10 {
            return Some((index, 1));
        }
        if bytes[index] == 13 {
            if bytes.len() - index > 1 && bytes[index + 1] == 10 {
                return Some((index, 2));
            }
            return Some((index, 1));
        }
        index += 1;
    }
    None
}

/// The field that a line holds: its name and its value.
fn split_field(line: &str) -> (r: (String, String))
    ensures
        r.0@ == field_name(line@),
        r.1@ == field_value(line@),
{
    let chars = chars_of(line);
    let mut at: usize = 0;
    while at < chars.len() && chars[at] != ':'
        invariant
            chars@ == line@,
            at <= chars.len(),
            colon_at(line@, 0) == colon_at(line@, at as int),
        decreases chars.len() - at,
    {
        at += 1;
    }
    assert(chars@.subrange(0, at as int) =~= line@.take(at as int));
    let name = string_of(&chars, 0, at);
    if at == chars.len() {
        return (name, String::new());
    }
    let start: usize = if chars.len() - at > 1 && chars[at + 1] == ' ' {
        at + 2
    } else {
        at + 1
    };
    assert(chars@.subrange(start as int, chars.len() as int) =~= line@.skip(start as int));
    (name, string_of(&chars, start, chars.len()))
}

/// The checkpoint that a control event announces.
pub fn checkpoint_from(payload: ControlPayload) -> (r: StreamCheckpoint)
    ensures
        r@ == payload@.checkpoint(),
        r.stream_closed <==> payload.stream_closed == Some(true),
        payload.up_to_date matches Some(up_to_date) ==> r.up_to_date == up_to_date,
        payload.up_to_date is None ==> r.up_to_date == r.stream_closed,
        r.next_offset@.text() == payload.stream_next_offset@,
        opt_view(r.cursor) == opt_view(payload.stream_cursor),
{
    proof {
        law_offset_preserves_text(payload.stream_next_offset@);
    }
    let closed = payload.stream_closed.unwrap_or(false);
    StreamCheckpoint {
        next_offset: Offset::from(payload.stream_next_offset),
        cursor: payload.stream_cursor,
        up_to_date: payload.up_to_date.unwrap_or(closed),
        stream_closed: closed,
    }
}

/// A parser of server-sent events that takes its input in chunks.
#[derive(Debug)]
pub struct SseParser {
    buffer: BytesMut,
    current_event_type: Option<String>,
    current_data_lines: Vec<String>,
}

impl View for SseParser {
    type V = SseState;

    closed spec fn view(&self) -> SseState {
        SseState {
            buffer: buffered(self.buffer),
            event_type: match self.current_event_type {
                Some(event_type) => event_type@,
                None => Seq::empty(),
            },
            data_lines: views(self.current_data_lines@),
        }
    }
}

impl Default for SseParser {
    fn default() -> (r: SseParser)
        ensures
            r@ == SseState::initial(),
    {
        SseParser::new()
    }
}

/// The outcome `r`, seen through the views of its values.
pub open spec fn events_result(r: Result<Vec<SubscriptionEvent>, Error>) -> Result<
    Seq<EventView>,
    ErrorView,
> {
    match r {
        Ok(events) => Ok(event_views(events@)),
        Err(error) => Err(error@),
    }
}

/// The outcome `r`, seen through the views of its values.
pub open spec fn event_result(r: Result<Option<SubscriptionEvent>, Error>) -> Result<
    Option<EventView>,
    ErrorView,
> {
    match r {
        Ok(Some(event)) => Ok(Some(event@)),
        Ok(None) => Ok(None),
        Err(error) => Err(error@),
    }
}

/// The failure to make sense of an event: what is wrong, and the details.
fn invalid_sse(path: &str, what: &str, details: &str) -> (r: Error)
    ensures
        r@ == (ErrorView::InvalidSse { path: path@, reason: what@ + details@ }),
{
    Error::InvalidSse { path: path.to_owned(), reason: concat(what, details) }
}

/// What a data event delivers, where `decoded` is what its base64 text decodes to.
pub fn decoded_data(path: &str, decoded: Result<Vec<u8>, String>) -> (r: Result<
    Option<SubscriptionEvent>,
    Error,
>)
    ensures
        event_result(r) == decoded_outcome(
            path@,
            match decoded {
                Ok(bytes) => Ok(bytes@),
                Err(message) => Err(message@),
            },
        ),
{
    match decoded {
        Ok(bytes) => Ok(Some(SubscriptionEvent::Data(bytes))),
        Err(source) => Err(invalid_sse(path, "invalid base64 SSE data: ", source.as_str())),
    }
}

/// What a control event delivers, where `read` is how its JSON text reads.
pub fn control_event(path: &str, read: Result<ControlPayload, String>) -> (r: Result<
    Option<SubscriptionEvent>,
    Error,
>)
    ensures
        event_result(r) == control_outcome(path@, control_result(read)),
{
    match read {
        Ok(payload) => Ok(Some(SubscriptionEvent::Checkpoint(checkpoint_from(payload)))),
        Err(source) => Err(invalid_sse(path, "invalid control event JSON: ", source.as_str())),
    }
}

impl SseParser {
    /// A parser that has not read anything.
    #[must_use]
    pub fn new() -> (r: SseParser)
        ensures
            r@ == SseState::initial(),
    {
        let r = SseParser {
            buffer: buffer_new(),
            current_event_type: None,
            current_data_lines: Vec::new(),
        };
        assert(r@ =~= SseState::initial());
        r
    }

    /// Dispatches the pending event.
    fn finish_event<F: Fn(&str) -> Result<ControlPayload, String>>(
        &mut self,
        path: &str,
        base64_data: bool,
        decode_control: &F,
    ) -> (r: Result<Option<SubscriptionEvent>, Error>)
        requires
            forall|text: &str| call_requires(*decode_control, (text,)),
        ensures
            final(self)@ == old(self)@.dispatched(),
            forall|reading: ControlReading| #[trigger]
                reads_as(*decode_control, reading) ==> event_result(r) == old(self)@.delivery(
                    path@,
                    base64_data,
                    reading,
                ),
            old(self)@.event_type != "control"@ ==> forall|reading: ControlReading|
                event_result(r) == #[trigger] old(self)@.delivery(path@, base64_data, reading),
    {
        let event_type = match self.current_event_type.take() {
            Some(event_type) => event_type,
            None => String::new(),
        };
        let data = join_lines(&self.current_data_lines);
        self.current_data_lines.clear();
        assert(self@ =~= old(self)@.dispatched());
        proof {
            reveal_strlit("data");
            reveal_strlit("control");
            assert("data"@.len() == 4 && "control"@.len() == 7);
        }
        if event_type.as_str().is_empty() && data.as_str().is_empty() {
            return Ok(None);
        }
        if same_text(event_type.as_str(), "data") {
            if base64_data {
                let compact = remove_line_breaks(data.as_str());
                decoded_data(path, decode_base64(compact.as_str()))
            } else {
                Ok(Some(SubscriptionEvent::Data(data.as_str().as_bytes_vec())))
            }
        } else if same_text(event_type.as_str(), "control") {
            control_event(path, decode_control(data.as_str()))
        } else {
            Ok(None)
        }
    }

    /// Takes in one line, which has been taken out of the buffer.
    fn take_line<F: Fn(&str) -> Result<ControlPayload, String>>(
        &mut self,
        line: &[u8],
        path: &str,
        base64_data: bool,
        decode_control: &F,
    ) -> (r: Result<Option<SubscriptionEvent>, Error>)
        requires
            forall|text: &str| call_requires(*decode_control, (text,)),
        ensures
            final(self)@ == old(self)@.after_line(line@),
            forall|reading: ControlReading| #[trigger]
                reads_as(*decode_control, reading) ==> event_result(r) == old(self)@.line_delivery(
                    line@,
                    path@,
                    base64_data,
                    reading,
                ),
            line@.len() > 0 || old(self)@.event_type != "control"@ ==> forall|
                reading: ControlReading,
            |
                event_result(r) == #[trigger] old(self)@.line_delivery(
                    line@,
                    path@,
                    base64_data,
                    reading,
                ),
    {
        let text = match utf8_text(line) {
            Some(text) => text,
            None => {
                return Err(
                    Error::InvalidSse {
                        path: path.to_owned(),
                        reason: "event stream was not valid UTF-8".to_owned(),
                    },
                );
            },
        };
        proof {
            decode_utf8_encode_utf8(line@);
        }
        if text.is_empty() {
            return self.finish_event(path, base64_data, decode_control);
        }
        if text.get_char(0) == ':' {
            return Ok(None);
        }
        let (field, value) = split_field(text);
        if same_text(field.as_str(), "event") {
            self.current_event_type = Some(value);
            assert(self@ =~= old(self)@.after_line(line@));
        } else if same_text(field.as_str(), "data") {
            self.current_data_lines.push(value);
            assert(self@.data_lines =~= old(self)@.data_lines.push(value@));
            assert(self@ =~= old(self)@.after_line(line@));
        }
        Ok(None)
    }

    /// Takes in a chunk and hands out the events that it completes. The first line that fails
    /// ends the work and takes the place of the events.
    ///
    /// `decode_control` reads the JSON text of a control event.
    pub fn push<F: Fn(&str) -> Result<ControlPayload, String>>(
        &mut self,
        chunk: &[u8],
        path: &str,
        base64_data: bool,
        decode_control: &F,
    ) -> (r: Result<Vec<SubscriptionEvent>, Error>)
        requires
            forall|text: &str| call_requires(*decode_control, (text,)),
        ensures
            forall|reading: ControlReading| #[trigger]
                reads_as(*decode_control, reading) ==> (final(self)@, events_result(r)) == old(
                    self,
                )@.with_bytes(chunk@).drained(path@, base64_data, reading),
            needs_no_reading(old(self)@.with_bytes(chunk@), path@, base64_data) ==> forall|
                reading: ControlReading,
            |
                (final(self)@, events_result(r)) == #[trigger] old(self)@.with_bytes(
                    chunk@,
                ).drained(path@, base64_data, reading),
    {
        buffer_extend(&mut self.buffer, chunk);
        let ghost start = old(self)@.with_bytes(chunk@);
        assert(self@ =~= start);
        let mut events: Vec<SubscriptionEvent> = Vec::new();
        proof {
            assert forall|reading: ControlReading|
                start.drained(path@, base64_data, reading) == preceded_by(
                    event_views(events@),
                    #[trigger] self@.drained(path@, base64_data, reading),
                ) by {
                if let Ok(more) = start.drained(path@, base64_data, reading).1 {
                    assert(event_views(events@) + more =~= more);
                }
            }
        }
        loop
            invariant
                forall|text: &str| call_requires(*decode_control, (text,)),
                forall|reading: ControlReading| #[trigger]
                    reads_as(*decode_control, reading) ==> start.drained(path@, base64_data, reading)
                        == preceded_by(
                        event_views(events@),
                        self@.drained(path@, base64_data, reading),
                    ),
                needs_no_reading(start, path@, base64_data) ==> needs_no_reading(
                    self@,
                    path@,
                    base64_data,
                ),
                needs_no_reading(start, path@, base64_data) ==> forall|reading: ControlReading|
                    #[trigger] start.drained(path@, base64_data, reading) == preceded_by(
                        event_views(events@),
                        self@.drained(path@, base64_data, reading),
                    ),
                start == old(self)@.with_bytes(chunk@),
            decreases self@.buffer.len(),
        {
            let ghost before = self@;
            let ghost done = event_views(events@);
            let (line, ending) = match next_line(buffer_bytes(&self.buffer)) {
                Some(found) => found,
                None => {
                    proof {
                        assert(!self@.has_line());
                        assert(done + Seq::<EventView>::empty() =~= done);
                    }
                    return Ok(events);
                },
            };
            let taken = buffer_split_to(&mut self.buffer, line + ending);
            let bytes = slice_subrange(taken.as_slice(), 0, line);
            proof {
                assert(before.has_line());
                assert(self@ =~= before.without_line());
                assert(bytes@ =~= before.first_line());
                assert forall|reading: ControlReading| true implies #[trigger] before.drained(
                    path@,
                    base64_data,
                    reading,
                ) == match before.without_line().line_delivery(bytes@, path@, base64_data, reading) {
                    Err(error) => (before.without_line().after_line(bytes@), Err(error)),
                    Ok(event) => preceded_by(
                        optional(event),
                        before.without_line().after_line(bytes@).drained(
                            path@,
                            base64_data,
                            reading,
                        ),
                    ),
                } by {
                    lemma_drained_step(before, path@, base64_data, reading);
                }
                if needs_no_reading(start, path@, base64_data) {
                    lemma_needs_no_reading_step(before, path@, base64_data);
                }
            }
            let ghost any: ControlReading = |text: Seq<char>| Err(Seq::empty());
            match self.take_line(bytes, path, base64_data, decode_control) {
                Err(error) => {
                    return Err(error);
                },
                Ok(Some(event)) => {
                    events.push(event);
                    assert(event_views(events@) =~= done + optional(Some(event@)));
                    proof {
                        if needs_no_reading(start, path@, base64_data) {
                            assert(before.without_line().line_delivery(
                                bytes@,
                                path@,
                                base64_data,
                                any,
                            ) is Ok);
                        }
                        assert forall|reading: ControlReading| true implies preceded_by(
                            done,
                            preceded_by(
                                optional(Some(event@)),
                                #[trigger] self@.drained(path@, base64_data, reading),
                            ),
                        ) == preceded_by(
                            event_views(events@),
                            self@.drained(path@, base64_data, reading),
                        ) by {
                            lemma_preceded_twice(
                                done,
                                optional(Some(event@)),
                                self@.drained(path@, base64_data, reading),
                            );
                        }
                    }
                },
                Ok(None) => {
                    proof {
                        if needs_no_reading(start, path@, base64_data) {
                            assert(before.without_line().line_delivery(
                                bytes@,
                                path@,
                                base64_data,
                                any,
                            ) is Ok);
                        }
                        assert(done + optional(None) =~= done);
                        assert forall|reading: ControlReading| true implies preceded_by(
                            done,
                            preceded_by(
                                optional(None),
                                #[trigger] self@.drained(path@, base64_data, reading),
                            ),
                        ) == preceded_by(done, self@.drained(path@, base64_data, reading)) by {
                            lemma_preceded_twice(
                                done,
                                optional(None),
                                self@.drained(path@, base64_data, reading),
                            );
                        }
                    }
                },
            }
        }
    }

    /// Ends the input: dispatches the pending event and drops a line that has not ended.
    pub fn finish<F: Fn(&str) -> Result<ControlPayload, String>>(
        &mut self,
        path: &str,
        base64_data: bool,
        decode_control: &F,
    ) -> (r: Result<Vec<SubscriptionEvent>, Error>)
        requires
            forall|text: &str| call_requires(*decode_control, (text,)),
        ensures
            final(self)@ == old(self)@.dispatched(),
            forall|reading: ControlReading| #[trigger]
                reads_as(*decode_control, reading) ==> events_result(r) == finish_outcome(
                    old(self)@,
                    path@,
                    base64_data,
                    reading,
                ),
            old(self)@.event_type != "control"@ ==> forall|reading: ControlReading|
                events_result(r) == #[trigger] finish_outcome(
                    old(self)@,
                    path@,
                    base64_data,
                    reading,
                ),
    {
        let mut events: Vec<SubscriptionEvent> = Vec::new();
        match self.finish_event(path, base64_data, decode_control) {
            Err(error) => Err(error),
            Ok(Some(event)) => {
                events.push(event);
                assert(event_views(events@) =~= optional(Some(event@)));
                Ok(events)
            },
            Ok(None) => {
                assert(event_views(events@) =~= optional(None));
                Ok(events)
            },
        }
    }
}

/// What ending the input delivers.
pub open spec fn finish_outcome(
    state: SseState,
    path: Seq<char>,
    base64: bool,
    reading: ControlReading,
) -> Result<Seq<EventView>, ErrorView> {
    match state.delivery(path, base64, reading) {
        Ok(event) => Ok(optional(event)),
        Err(error) => Err(error),
    }
}

/// Whether the boundary between the two chunks falls between the two bytes of a line ending.
pub open spec fn splits_line_ending(first: Seq<u8>, second: Seq<u8>) -> bool {
    first.len() > 0 && second.len() > 0 && first.last() == 13 && second[0] == 10
}

/// Whether no event is under way.
pub open spec fn nothing_pending(state: SseState) -> bool {
    state.event_type.len() == 0 && state.data_lines.len() == 0
}

proof fn lemma_line_end_of_prefix(bytes: Seq<u8>, more: Seq<u8>, i: int)
    requires
        0 <= i <= bytes.len(),
        line_end(bytes, i) < bytes.len(),
    ensures
        line_end(bytes + more, i) == line_end(bytes, i),
    decreases bytes.len() - i,
{
    if i < bytes.len() && bytes[i] != 10 && bytes[i] != 13 {
        lemma_line_end_of_prefix(bytes, more, i + 1);
    }
}

proof fn lemma_more_bytes(
    state: SseState,
    more: Seq<u8>,
    path: Seq<char>,
    base64: bool,
    reading: ControlReading,
)
    requires
        state.drained(path, base64, reading).1 is Ok && splits_line_ending(state.buffer, more)
            ==> nothing_pending(state.drained(path, base64, reading).0),
    ensures
        match state.drained(path, base64, reading).1 {
            Ok(events) => state.with_bytes(more).drained(path, base64, reading) == preceded_by(
                events,
                state.drained(path, base64, reading).0.with_bytes(more).drained(
                    path,
                    base64,
                    reading,
                ),
            ),
            Err(error) => state.with_bytes(more).drained(path, base64, reading).1 == Err::<
                Seq<EventView>,
                ErrorView,
            >(error),
        },
    decreases state.buffer.len(),
{
    let whole = state.with_bytes(more);
    if !state.has_line() {
        if let Ok(events) = whole.drained(path, base64, reading).1 {
            assert(Seq::<EventView>::empty() + events =~= events);
        }
    } else {
        let line = state.first_line();
        let rest = state.without_line();
        let next = rest.after_line(line);
        let end = line_end(state.buffer, 0);
        lemma_line_end(state.buffer, 0);
        lemma_line_end_of_prefix(state.buffer, more, 0);
        assert(whole.has_line());
        assert(whole.first_line() =~= line);
        lemma_drained_step(state, path, base64, reading);
        lemma_drained_step(whole, path, base64, reading);
        let delivery = rest.line_delivery(line, path, base64, reading);
        assert(whole.without_line().line_delivery(line, path, base64, reading) == delivery);
        if delivery is Ok {
            let event = delivery->Ok_0;
            if ending_len(whole.buffer, end) == ending_len(state.buffer, end) {
                assert(whole.without_line() =~= rest.with_bytes(more));
                assert(whole.without_line().after_line(line) =~= next.with_bytes(more));
                assert(rest.buffer.len() > 0 ==> rest.buffer.last() == state.buffer.last());
                lemma_more_bytes(next, more, path, base64, reading);
                if let Ok(events) = next.drained(path, base64, reading).1 {
                    lemma_preceded_twice(
                        optional(event),
                        events,
                        next.drained(path, base64, reading).0.with_bytes(more).drained(
                            path,
                            base64,
                            reading,
                        ),
                    );
                }
            } else {
                // The line ends with the last byte of the first chunk, a carriage return that the
                // line feed at the start of the second one completes.
                assert(end + 1 == state.buffer.len());
                assert(next.buffer =~= Seq::<u8>::empty());
                assert(state.drained(path, base64, reading) == (
                    next,
                    Ok::<Seq<EventView>, ErrorView>(optional(event) + Seq::<EventView>::empty()),
                ));
                assert(nothing_pending(next));
                let resumed = next.with_bytes(more);
                assert(resumed.buffer =~= more);
                assert(line_end(more, 0) == 0);
                assert(resumed.has_line());
                assert(resumed.first_line() =~= Seq::<u8>::empty());
                lemma_drained_step(resumed, path, base64, reading);
                reveal_strlit("data");
                reveal_strlit("control");
                assert("data"@.len() == 4 && "control"@.len() == 7);
                let empty = Seq::<u8>::empty();
                assert(resumed.without_line().line_delivery(empty, path, base64, reading) == Ok::<
                    Option<EventView>,
                    ErrorView,
                >(None));
                assert(resumed.without_line().after_line(empty) =~= whole.without_line().after_line(
                    line,
                ));
                lemma_preceded_twice(
                    optional(event) + Seq::<EventView>::empty(),
                    optional(None),
                    whole.without_line().after_line(line).drained(path, base64, reading),
                );
                assert(optional(event) + Seq::<EventView>::empty() + optional(None) =~= optional(
                    event,
                ));
            }
        }
    }
}

/// How a stream is cut into chunks does not matter: two chunks, one after the other, deliver what
/// the two together deliver and leave the parser in the same state, and a failure on the first is
/// the failure on the whole. The one exception is a cut between the carriage return and the line
/// feed that end one line while an event is under way: there the line feed counts as an empty
/// line.
pub proof fn law_chunks_do_not_matter(
    state: SseState,
    first: Seq<u8>,
    second: Seq<u8>,
    path: Seq<char>,
    base64: bool,
    reading: ControlReading,
)
    requires
        ({
            let (middle, outcome) = state.with_bytes(first).drained(path, base64, reading);
            outcome is Ok && splits_line_ending(state.buffer + first, second) ==> nothing_pending(
                middle,
            )
        }),
    ensures
        ({
            let (middle, outcome) = state.with_bytes(first).drained(path, base64, reading);
            let whole = state.with_bytes(first + second).drained(path, base64, reading);
            match outcome {
                Ok(events) => whole == preceded_by(
                    events,
                    middle.with_bytes(second).drained(path, base64, reading),
                ),
                Err(error) => whole.1 == Err::<Seq<EventView>, ErrorView>(error),
            }
        }),
{
    lemma_more_bytes(state.with_bytes(first), second, path, base64, reading);
    assert(state.with_bytes(first).with_bytes(second) =~= state.with_bytes(first + second));
}

/// A parser holds on to part of a line at most: what it has taken in without a failure, it has
/// taken in up to the last line that has ended.
pub proof fn law_no_line_is_left(
    state: SseState,
    path: Seq<char>,
    base64: bool,
    reading: ControlReading,
)
    requires
        state.drained(path, base64, reading).1 is Ok,
    ensures
        !state.drained(path, base64, reading).0.has_line(),
    decreases state.buffer.len(),
{
    if state.has_line() {
        lemma_line_end(state.buffer, 0);
        lemma_drained_step(state, path, base64, reading);
        let next = state.without_line().after_line(state.first_line());
        law_no_line_is_left(next, path, base64, reading);
    }
}

/// Whether the line says nothing: it is a comment, or a field that is not read.
pub open spec fn says_nothing(line: Seq<u8>) -> bool {
    let text = decode_utf8(line);
    valid_utf8(line) && text.len() > 0 && (text[0] == ':' || (field_name(text) != "event"@
        && field_name(text) != "data"@))
}

/// Comments and fields other than `event` and `data` have no effect.
pub proof fn law_other_lines_have_no_effect(
    state: SseState,
    line: Seq<u8>,
    path: Seq<char>,
    base64: bool,
    reading: ControlReading,
)
    requires
        says_nothing(line),
    ensures
        state.after_line(line) == state,
        state.line_delivery(line, path, base64, reading) == Ok::<Option<EventView>, ErrorView>(
            None,
        ),
{
}

/// Whether the bytes end a line: a line feed, a carriage return, or both.
pub open spec fn ends_line(ending: Seq<u8>) -> bool {
    ending == seq![10u8] || ending == seq![13u8] || ending == seq![13u8, 10u8]
}

/// Whether no byte ends a line.
pub open spec fn within_line(bytes: Seq<u8>) -> bool {
    forall|i: int| 0 <= i < bytes.len() ==> #[trigger] bytes[i] != 10 && bytes[i] != 13
}

/// What draining comes to where one line is taken in.
pub open spec fn line_outcome(
    state: SseState,
    line: Seq<u8>,
    path: Seq<char>,
    base64: bool,
    reading: ControlReading,
) -> (SseState, Result<Seq<EventView>, ErrorView>) {
    (
        state.after_line(line),
        match state.line_delivery(line, path, base64, reading) {
            Ok(event) => Ok(optional(event)),
            Err(error) => Err(error),
        },
    )
}

proof fn lemma_line_end_here(bytes: Seq<u8>, i: int, end: int)
    requires
        0 <= i <= end < bytes.len(),
        forall|j: int| i <= j < end ==> #[trigger] bytes[j] != 10 && bytes[j] != 13,
        bytes[end] == 10 || bytes[end] == 13,
    ensures
        line_end(bytes, i) == end,
    decreases end - i,
{
    if i < end {
        lemma_line_end_here(bytes, i + 1, end);
    }
}

/// A line is taken in as soon as it has ended, and it may end in a line feed, in a carriage
/// return, or in both.
pub proof fn law_line_is_taken_in(
    state: SseState,
    line: Seq<u8>,
    ending: Seq<u8>,
    path: Seq<char>,
    base64: bool,
    reading: ControlReading,
)
    requires
        state.buffer.len() == 0,
        within_line(line),
        ends_line(ending),
    ensures
        state.with_bytes(line + ending).drained(path, base64, reading) == line_outcome(
            state,
            line,
            path,
            base64,
            reading,
        ),
{
    let full = state.with_bytes(line + ending);
    let end = line.len() as int;
    assert(full.buffer =~= line + ending);
    assert forall|j: int| 0 <= j < end implies #[trigger] full.buffer[j] != 10 && full.buffer[j]
        != 13 by {
        assert(full.buffer[j] == line[j]);
    }
    lemma_line_end_here(full.buffer, 0, end);
    assert(full.first_line() =~= line);
    assert(full.without_line() =~= state);
    lemma_drained_step(full, path, base64, reading);
    let next = state.after_line(line);
    assert(next.buffer =~= Seq::empty());
    assert(!next.has_line());
    if let Ok(event) = state.line_delivery(line, path, base64, reading) {
        assert(optional(event) + Seq::<EventView>::empty() =~= optional(event));
    }
}

/// The lines, each with its ending behind it.
pub open spec fn written(lines: Seq<Seq<u8>>, endings: Seq<Seq<u8>>) -> Seq<u8>
    decreases lines.len(),
{
    if lines.len() == 0 {
        Seq::empty()
    } else {
        lines[0] + endings[0] + written(lines.drop_first(), endings.drop_first())
    }
}

/// Whether each line has an ending that is read as its own: behind a carriage return that ends a
/// line comes no line feed.
pub open spec fn well_ended(lines: Seq<Seq<u8>>, endings: Seq<Seq<u8>>) -> bool {
    &&& lines.len() == endings.len()
    &&& forall|i: int| 0 <= i < lines.len() ==> within_line(#[trigger] lines[i])
    &&& forall|i: int| 0 <= i < endings.len() ==> ends_line(#[trigger] endings[i])
    &&& forall|i: int|
        0 < i < lines.len() && endings[i - 1] == seq![13u8] && (#[trigger] lines[i]).len() == 0
            ==> endings[i] != seq![10u8]
}

/// The lines that say something, in order.
pub open spec fn saying(lines: Seq<Seq<u8>>) -> Seq<Seq<u8>>
    decreases lines.len(),
{
    if lines.len() == 0 {
        Seq::empty()
    } else if says_nothing(lines[0]) {
        saying(lines.drop_first())
    } else {
        seq![lines[0]] + saying(lines.drop_first())
    }
}

/// What comes of taking in the lines in order, up to the first that fails.
pub open spec fn taken_in(
    state: SseState,
    lines: Seq<Seq<u8>>,
    path: Seq<char>,
    base64: bool,
    reading: ControlReading,
) -> (SseState, Result<Seq<EventView>, ErrorView>)
    decreases lines.len(),
{
    if lines.len() == 0 {
        (state, Ok(Seq::empty()))
    } else {
        let next = state.after_line(lines[0]);
        match state.line_delivery(lines[0], path, base64, reading) {
            Err(error) => (next, Err(error)),
            Ok(event) => preceded_by(
                optional(event),
                taken_in(next, lines.drop_first(), path, base64, reading),
            ),
        }
    }
}

proof fn lemma_more_is_well_ended(lines: Seq<Seq<u8>>, endings: Seq<Seq<u8>>)
    requires
        well_ended(lines, endings),
        lines.len() > 0,
    ensures
        well_ended(lines.drop_first(), endings.drop_first()),
{
    let more_lines = lines.drop_first();
    let more_endings = endings.drop_first();
    assert forall|i: int| 0 <= i < more_lines.len() implies within_line(
        #[trigger] more_lines[i],
    ) by {
        assert(more_lines[i] == lines[i + 1]);
    }
    assert forall|i: int| 0 <= i < more_endings.len() implies ends_line(
        #[trigger] more_endings[i],
    ) by {
        assert(more_endings[i] == endings[i + 1]);
    }
    assert forall|i: int|
        0 < i < more_lines.len() && more_endings[i - 1] == seq![13u8] && (
        #[trigger] more_lines[i]).len() == 0 implies more_endings[i] != seq![10u8] by {
        assert(more_lines[i] == lines[i + 1]);
    }
}

/// Where no part of a line is held, lines are taken in by what they are, and not by how they end.
proof fn lemma_lines_are_taken_in(
    state: SseState,
    lines: Seq<Seq<u8>>,
    endings: Seq<Seq<u8>>,
    rest: Seq<u8>,
    path: Seq<char>,
    base64: bool,
    reading: ControlReading,
)
    requires
        state.buffer.len() == 0,
        well_ended(lines, endings),
        within_line(rest),
    ensures
        ({
            let drained = state.with_bytes(written(lines, endings) + rest).drained(
                path,
                base64,
                reading,
            );
            let taken = taken_in(state, lines, path, base64, reading);
            &&& drained.1 == taken.1
            &&& taken.1 is Ok ==> drained.0 == taken.0.with_bytes(rest)
        }),
    decreases lines.len(),
{
    let full = state.with_bytes(written(lines, endings) + rest);
    if lines.len() == 0 {
        assert(full.buffer =~= rest);
        lemma_line_end(full.buffer, 0);
        assert(!full.has_line());
        assert(full =~= state.with_bytes(rest));
    } else {
        let line = lines[0];
        let ending = endings[0];
        let more_lines = lines.drop_first();
        let more_endings = endings.drop_first();
        let more = written(more_lines, more_endings) + rest;
        let end = line.len() as int;
        assert(within_line(lines[0]) && ends_line(endings[0]));
        assert(full.buffer =~= line + ending + more);
        assert forall|j: int| 0 <= j < end implies #[trigger] full.buffer[j] != 10 && full.buffer[j]
            != 13 by {
            assert(full.buffer[j] == line[j]);
        }
        assert(full.buffer[end] == ending[0]);
        lemma_line_end_here(full.buffer, 0, end);
        lemma_more_is_well_ended(lines, endings);
        if ending == seq![13u8] && more.len() > 0 {
            if more_lines.len() > 0 {
                assert(more_lines[0] == lines[1] && more_endings[0] == endings[1]);
                if lines[1].len() > 0 {
                    assert(more[0] == lines[1][0]);
                } else {
                    assert(more[0] == endings[1][0]);
                }
            } else {
                assert(more =~= rest);
            }
            assert(more[0] != 10);
            assert(full.buffer[end + 1] == more[0]);
        }
        assert(full.first_line() =~= line);
        assert(full.without_line() =~= state.with_bytes(more));
        lemma_drained_step(full, path, base64, reading);
        let next = state.after_line(line);
        assert(state.with_bytes(more).after_line(line) =~= next.with_bytes(more));
        lemma_lines_are_taken_in(next, more_lines, more_endings, rest, path, base64, reading);
    }
}

/// Lines that say nothing can be left out.
proof fn lemma_saying_is_enough(
    state: SseState,
    lines: Seq<Seq<u8>>,
    path: Seq<char>,
    base64: bool,
    reading: ControlReading,
)
    ensures
        taken_in(state, lines, path, base64, reading) == taken_in(
            state,
            saying(lines),
            path,
            base64,
            reading,
        ),
    decreases lines.len(),
{
    if lines.len() > 0 {
        let more = lines.drop_first();
        let next = state.after_line(lines[0]);
        lemma_saying_is_enough(next, more, path, base64, reading);
        if says_nothing(lines[0]) {
            assert(next == state);
            let rest = taken_in(state, more, path, base64, reading);
            if let Ok(events) = rest.1 {
                assert(Seq::<EventView>::empty() + events =~= events);
            }
        } else {
            assert(saying(lines).drop_first() =~= saying(more));
        }
    }
}

/// What is delivered depends neither on how lines end nor on comments and fields that are not
/// read: two inputs whose other lines are the same deliver the same, and fail alike. Where they do
/// not fail, the same is pending afterwards.
pub proof fn law_line_endings_and_comments_do_not_matter(
    state: SseState,
    lines: Seq<Seq<u8>>,
    endings: Seq<Seq<u8>>,
    other_lines: Seq<Seq<u8>>,
    other_endings: Seq<Seq<u8>>,
    rest: Seq<u8>,
    path: Seq<char>,
    base64: bool,
    reading: ControlReading,
)
    requires
        state.buffer.len() == 0,
        well_ended(lines, endings),
        well_ended(other_lines, other_endings),
        within_line(rest),
        saying(lines) == saying(other_lines),
    ensures
        ({
            let bytes = written(lines, endings) + rest;
            let other_bytes = written(other_lines, other_endings) + rest;
            let a = state.with_bytes(bytes).drained(path, base64, reading);
            let b = state.with_bytes(other_bytes).drained(path, base64, reading);
            &&& a.1 == b.1
            &&& a.1 is Ok ==> a.0 == b.0
        }),
{
    lemma_lines_are_taken_in(state, lines, endings, rest, path, base64, reading);
    lemma_lines_are_taken_in(state, other_lines, other_endings, rest, path, base64, reading);
    lemma_saying_is_enough(state, lines, path, base64, reading);
    lemma_saying_is_enough(state, other_lines, path, base64, reading);
}

/// Every input is lines with their endings, and a part of a line.
pub proof fn law_input_is_lines(bytes: Seq<u8>)
    ensures
        exists|lines: Seq<Seq<u8>>, endings: Seq<Seq<u8>>, rest: Seq<u8>|
            {
                &&& #[trigger] well_ended(lines, endings)
                &&& within_line(rest)
                &&& bytes == #[trigger] (written(lines, endings) + rest)
            },
    decreases bytes.len(),
{
    let end = line_end(bytes, 0);
    lemma_line_end(bytes, 0);
    if end == bytes.len() {
        let none = Seq::<Seq<u8>>::empty();
        assert(well_ended(none, none));
        assert(bytes =~= written(none, none) + bytes);
    } else {
        let line = bytes.take(end);
        let len = ending_len(bytes, end);
        let ending = bytes.subrange(end, end + len);
        let more = bytes.skip(end + len);
        law_input_is_lines(more);
        let (more_lines, more_endings, rest) = choose|
            lines: Seq<Seq<u8>>,
            endings: Seq<Seq<u8>>,
            rest: Seq<u8>,
        |
            {
                &&& #[trigger] well_ended(lines, endings)
                &&& within_line(rest)
                &&& more == #[trigger] (written(lines, endings) + rest)
            };
        let lines = seq![line] + more_lines;
        let endings = seq![ending] + more_endings;
        assert(lines.drop_first() =~= more_lines && endings.drop_first() =~= more_endings);
        assert(bytes =~= line + ending + more);
        assert(bytes =~= written(lines, endings) + rest);
        if len == 2 {
            assert(ending =~= seq![13u8, 10u8]);
        } else {
            assert(ending =~= seq![bytes[end]]);
        }
        assert forall|i: int| 0 <= i < lines.len() implies within_line(#[trigger] lines[i]) by {
            if i > 0 {
                assert(lines[i] == more_lines[i - 1]);
            }
        }
        assert forall|i: int| 0 <= i < endings.len() implies ends_line(#[trigger] endings[i]) by {
            if i > 0 {
                assert(endings[i] == more_endings[i - 1]);
            }
        }
        assert forall|i: int|
            0 < i < lines.len() && endings[i - 1] == seq![13u8] && (#[trigger] lines[i]).len()
                == 0 implies endings[i] != seq![10u8] by {
            assert(lines[i] == more_lines[i - 1] && endings[i] == more_endings[i - 1]);
            if i == 1 {
                assert(ending.len() == 1 && ending[0] == 13);
                if endings[1] == seq![10u8] {
                    assert(more[0] == more_endings[0][0]);
                    assert(bytes[end + 1] == more[0]);
                }
            }
        }
        assert(well_ended(lines, endings));
    }
}

/// The bytes with `ending` in the place of each line feed.
pub open spec fn with_endings(bytes: Seq<u8>, ending: Seq<u8>) -> Seq<u8>
    decreases bytes.len(),
{
    if bytes.len() == 0 {
        Seq::empty()
    } else {
        let first = if bytes[0] == 10 {
            ending
        } else {
            seq![bytes[0]]
        };
        first + with_endings(bytes.drop_first(), ending)
    }
}

proof fn lemma_with_endings_joined(a: Seq<u8>, b: Seq<u8>, ending: Seq<u8>)
    ensures
        with_endings(a + b, ending) == with_endings(a, ending) + with_endings(b, ending),
    decreases a.len(),
{
    if a.len() == 0 {
        assert(a + b =~= b);
        assert(with_endings(a, ending) + with_endings(b, ending) =~= with_endings(b, ending));
    } else {
        assert((a + b).drop_first() =~= a.drop_first() + b);
        lemma_with_endings_joined(a.drop_first(), b, ending);
        assert(with_endings(a + b, ending) =~= with_endings(a, ending) + with_endings(b, ending));
    }
}

proof fn lemma_with_endings_within_line(bytes: Seq<u8>, ending: Seq<u8>)
    requires
        within_line(bytes),
    ensures
        with_endings(bytes, ending) == bytes,
    decreases bytes.len(),
{
    if bytes.len() > 0 {
        let more = bytes.drop_first();
        assert forall|i: int| 0 <= i < more.len() implies #[trigger] more[i] != 10 && more[i]
            != 13 by {
            assert(more[i] == bytes[i + 1]);
        }
        lemma_with_endings_within_line(more, ending);
        assert(bytes[0] != 10);
        assert(seq![bytes[0]] + more =~= bytes);
    }
}

proof fn lemma_lines_with_endings(lines: Seq<Seq<u8>>, endings: Seq<Seq<u8>>, ending: Seq<u8>)
    requires
        well_ended(lines, endings),
        !written(lines, endings).contains(13),
        ends_line(ending),
    ensures
        ({
            let others = Seq::new(lines.len(), |i: int| ending);
            &&& well_ended(lines, others)
            &&& with_endings(written(lines, endings), ending) == written(lines, others)
        }),
    decreases lines.len(),
{
    let others = Seq::new(lines.len(), |i: int| ending);
    if lines.len() > 0 {
        let more_lines = lines.drop_first();
        let more_endings = endings.drop_first();
        let more = written(more_lines, more_endings);
        let start = lines[0] + endings[0];
        let bytes = written(lines, endings);
        assert(bytes == start + more);
        assert(within_line(lines[0]) && ends_line(endings[0]));
        if endings[0][0] == 13 {
            assert(bytes[lines[0].len() as int] == 13);
        }
        if more.contains(13) {
            let i = more.index_of(13);
            assert(bytes[start.len() + i] == 13);
        }
        lemma_more_is_well_ended(lines, endings);
        lemma_lines_with_endings(more_lines, more_endings, ending);
        assert(others.drop_first() =~= Seq::new(more_lines.len(), |i: int| ending));
        lemma_with_endings_joined(start, more, ending);
        lemma_with_endings_joined(lines[0], endings[0], ending);
        lemma_with_endings_within_line(lines[0], ending);
        assert(endings[0].drop_first() =~= Seq::empty());
        assert(with_endings(endings[0].drop_first(), ending) =~= Seq::empty());
        assert(with_endings(endings[0], ending) =~= ending);
    }
}

/// Lines may end in a line feed, in a carriage return, or in both: an input in which each line
/// feed is replaced delivers the same, fails alike, and leaves the same pending.
pub proof fn law_line_feeds_may_be_replaced(
    state: SseState,
    bytes: Seq<u8>,
    ending: Seq<u8>,
    path: Seq<char>,
    base64: bool,
    reading: ControlReading,
)
    requires
        state.buffer.len() == 0,
        !bytes.contains(13),
        ends_line(ending),
    ensures
        ({
            let a = state.with_bytes(bytes).drained(path, base64, reading);
            let b = state.with_bytes(with_endings(bytes, ending)).drained(path, base64, reading);
            &&& a.1 == b.1
            &&& a.1 is Ok ==> a.0 == b.0
        }),
{
    law_input_is_lines(bytes);
    let (lines, endings, rest) = choose|
        lines: Seq<Seq<u8>>,
        endings: Seq<Seq<u8>>,
        rest: Seq<u8>,
    |
        {
            &&& #[trigger] well_ended(lines, endings)
            &&& within_line(rest)
            &&& bytes == #[trigger] (written(lines, endings) + rest)
        };
    let ended = written(lines, endings);
    if ended.contains(13) {
        let i = ended.index_of(13);
        assert(bytes[i] == 13);
    }
    let others = Seq::new(lines.len(), |i: int| ending);
    lemma_lines_with_endings(lines, endings, ending);
    lemma_with_endings_joined(ended, rest, ending);
    lemma_with_endings_within_line(rest, ending);
    law_line_endings_and_comments_do_not_matter(
        state,
        lines,
        endings,
        lines,
        others,
        rest,
        path,
        base64,
        reading,
    );
}

/// Whether the text is part of one line.
pub open spec fn one_line(text: Seq<char>) -> bool {
    !text.contains('\n') && !text.contains('\r')
}

proof fn lemma_scalar_within_line(scalar: u32)
    requires
        is_scalar(scalar),
        scalar != 10,
        scalar != 13,
    ensures
        within_line(encode_scalar(scalar)),
{
    assert(scalar <= 0x7f ==> (scalar & 0x7f) as u8 == scalar) by (bit_vector);
    assert(0xc0u8 | ((scalar >> 6) & 0x1f) as u8 >= 0x80) by (bit_vector);
    assert(0xe0u8 | ((scalar >> 12) & 0x0f) as u8 >= 0x80) by (bit_vector);
    assert(0xf0u8 | ((scalar >> 18) & 0x7) as u8 >= 0x80) by (bit_vector);
    assert(0x80u8 | (scalar & 0x3f) as u8 >= 0x80) by (bit_vector);
    assert(0x80u8 | ((scalar >> 6) & 0x3f) as u8 >= 0x80) by (bit_vector);
    assert(0x80u8 | ((scalar >> 12) & 0x3f) as u8 >= 0x80) by (bit_vector);
}

/// The encoding of text that is part of one line is part of one line.
proof fn lemma_text_within_line(text: Seq<char>)
    requires
        one_line(text),
    ensures
        within_line(encode_utf8(text)),
    decreases text.len(),
{
    if text.len() > 0 {
        let rest = text.drop_first();
        assert(text.contains(text[0]));
        char_u32_cast(text[0], text[0] as u32);
        assert(10u32 as char == '\n' && 13u32 as char == '\r');
        assert forall|c: char| #[trigger] rest.contains(c) implies text.contains(c) by {
            let i = rest.index_of(c);
            assert(text[i + 1] == c);
        }
        lemma_text_within_line(rest);
        char_is_scalar(text[0]);
        lemma_scalar_within_line(text[0] as u32);
        let first = encode_scalar(text[0] as u32);
        assert forall|i: int| 0 <= i < encode_utf8(text).len() implies #[trigger] encode_utf8(
            text,
        )[i] != 10 && encode_utf8(text)[i] != 13 by {
            if i < first.len() {
                assert(encode_utf8(text)[i] == first[i]);
            } else {
                assert(encode_utf8(text)[i] == encode_utf8(rest)[i - first.len()]);
            }
        }
    }
}

/// A field of an event as a server writes it: its name and its value on a line.
pub open spec fn field_bytes(name: Seq<char>, value: Seq<char>) -> Seq<u8> {
    encode_utf8(name + ": "@ + value) + seq![10u8]
}

/// The data lines of an event as a server writes them.
pub open spec fn data_bytes(lines: Seq<Seq<char>>) -> Seq<u8>
    decreases lines.len(),
{
    if lines.len() == 0 {
        Seq::empty()
    } else {
        data_bytes(lines.drop_last()) + field_bytes("data"@, lines.last())
    }
}

/// An event as a server writes it: its type, its data lines and an empty line.
pub open spec fn event_bytes(event_type: Seq<char>, lines: Seq<Seq<char>>) -> Seq<u8> {
    field_bytes("event"@, event_type) + data_bytes(lines) + seq![10u8]
}

proof fn lemma_field(name: Seq<char>, value: Seq<char>)
    requires
        name.len() > 0,
        !name.contains(':'),
        one_line(name),
        one_line(value),
    ensures
        ({
            let line = name + ": "@ + value;
            &&& field_name(line) == name
            &&& field_value(line) == value
            &&& one_line(line)
            &&& line.len() > 0
            &&& line[0] == name[0]
            &&& name[0] != ':'
        }),
{
    reveal_strlit(": ");
    let line = name + ": "@ + value;
    assert(line.len() == name.len() + 2 + value.len());
    assert forall|i: int| 0 <= i < name.len() implies #[trigger] line[i] != ':' by {
        assert(name.contains(name[i]));
        assert(line[i] == name[i]);
    }
    assert(line[name.len() as int] == ':');
    lemma_colon_here(line, 0, name.len() as int);
    assert(line.take(name.len() as int) =~= name);
    assert(line[name.len() as int + 1] == ' ');
    assert(line.skip(name.len() as int + 2) =~= value);
    assert forall|c: char| #[trigger] line.contains(c) implies name.contains(c) || c == ':' || c
        == ' ' || value.contains(c) by {
        let i = line.index_of(c);
        assert(line[i] == c);
        if i < name.len() {
            assert(name[i] == c);
        } else if i >= name.len() + 2 {
            assert(value[i - name.len() - 2] == c);
        }
    }
    assert(name.contains(name[0]));
}

proof fn lemma_colon_here(line: Seq<char>, i: int, at: int)
    requires
        0 <= i <= at < line.len(),
        forall|j: int| i <= j < at ==> #[trigger] line[j] != ':',
        line[at] == ':',
    ensures
        colon_at(line, i) == at,
    decreases at - i,
{
    if i < at {
        lemma_colon_here(line, i + 1, at);
    }
}

/// What a field of an event does to a parser that holds no part of a line.
proof fn lemma_field_is_taken_in(
    state: SseState,
    name: Seq<char>,
    value: Seq<char>,
    path: Seq<char>,
    base64: bool,
    reading: ControlReading,
)
    requires
        state.buffer.len() == 0,
        name == "event"@ || name == "data"@,
        one_line(value),
    ensures
        state.with_bytes(field_bytes(name, value)).drained(path, base64, reading) == (
            if name == "event"@ {
                SseState { event_type: value, ..state }
            } else {
                SseState { data_lines: state.data_lines.push(value), ..state }
            },
            Ok::<Seq<EventView>, ErrorView>(Seq::empty()),
        ),
{
    reveal_strlit("event");
    reveal_strlit("data");
    assert("event"@.len() == 5 && "data"@.len() == 4);
    assert(!"event"@.contains(':') && one_line("event"@));
    assert(!"data"@.contains(':') && one_line("data"@));
    lemma_field(name, value);
    let text = name + ": "@ + value;
    let line = encode_utf8(text);
    lemma_text_within_line(text);
    encode_utf8_valid_utf8(text);
    encode_utf8_decode_utf8(text);
    law_line_is_taken_in(state, line, seq![10u8], path, base64, reading);
}

/// Two chunks that end where a line does, one after the other.
proof fn lemma_then(
    state: SseState,
    first: Seq<u8>,
    middle: SseState,
    second: Seq<u8>,
    path: Seq<char>,
    base64: bool,
    reading: ControlReading,
)
    requires
        first.len() == 0 || first.last() == 10,
        state.buffer.len() == 0,
        state.with_bytes(first).drained(path, base64, reading) == (
            middle,
            Ok::<Seq<EventView>, ErrorView>(Seq::empty()),
        ),
    ensures
        state.with_bytes(first + second).drained(path, base64, reading) == middle.with_bytes(
            second,
        ).drained(path, base64, reading),
{
    if first.len() > 0 {
        assert((state.buffer + first).last() == first.last());
    }
    law_chunks_do_not_matter(state, first, second, path, base64, reading);
    let rest = middle.with_bytes(second).drained(path, base64, reading);
    if let Ok(events) = rest.1 {
        assert(Seq::<EventView>::empty() + events =~= events);
    }
}

proof fn lemma_data_is_taken_in(
    state: SseState,
    lines: Seq<Seq<char>>,
    path: Seq<char>,
    base64: bool,
    reading: ControlReading,
)
    requires
        state.buffer.len() == 0,
        forall|i: int| 0 <= i < lines.len() ==> one_line(#[trigger] lines[i]),
    ensures
        data_bytes(lines).len() == 0 || data_bytes(lines).last() == 10,
        state.with_bytes(data_bytes(lines)).drained(path, base64, reading) == (
            SseState { data_lines: state.data_lines + lines, ..state },
            Ok::<Seq<EventView>, ErrorView>(Seq::empty()),
        ),
    decreases lines.len(),
{
    if lines.len() == 0 {
        assert(state.with_bytes(data_bytes(lines)) =~= state);
        assert(state.data_lines + lines =~= state.data_lines);
        assert(!state.has_line());
    } else {
        let before = lines.drop_last();
        assert forall|i: int| 0 <= i < before.len() implies one_line(#[trigger] before[i]) by {
            assert(before[i] == lines[i]);
        }
        lemma_data_is_taken_in(state, before, path, base64, reading);
        let middle = SseState { data_lines: state.data_lines + before, ..state };
        let field = field_bytes("data"@, lines.last());
        assert(field.last() == 10);
        assert(data_bytes(lines).last() == field.last());
        reveal_strlit("event");
        reveal_strlit("data");
        assert("event"@.len() == 5 && "data"@.len() == 4);
        lemma_then(state, data_bytes(before), middle, field, path, base64, reading);
        lemma_field_is_taken_in(middle, "data"@, lines.last(), path, base64, reading);
        assert((state.data_lines + before).push(lines.last()) =~= state.data_lines + lines);
    }
}

/// An event that a server writes is dispatched when its empty line comes, with the type and the
/// data lines that it was written with, and nothing of it stays behind.
pub proof fn law_written_event_is_dispatched(
    event_type: Seq<char>,
    lines: Seq<Seq<char>>,
    path: Seq<char>,
    base64: bool,
    reading: ControlReading,
)
    requires
        one_line(event_type),
        forall|i: int| 0 <= i < lines.len() ==> one_line(#[trigger] lines[i]),
    ensures
        SseState::initial().with_bytes(event_bytes(event_type, lines)).drained(
            path,
            base64,
            reading,
        ) == (
            SseState::initial(),
            match (SseState {
                event_type,
                data_lines: lines,
                ..SseState::initial()
            }).delivery(path, base64, reading) {
                Ok(event) => Ok(optional(event)),
                Err(error) => Err(error),
            },
        ),
{
    let state = SseState::initial();
    let kind = field_bytes("event"@, event_type);
    let data = data_bytes(lines);
    let typed = SseState { event_type, ..state };
    let filled = SseState { data_lines: state.data_lines + lines, ..typed };
    assert(state.data_lines + lines =~= lines);
    assert(kind.last() == 10);
    lemma_field_is_taken_in(state, "event"@, event_type, path, base64, reading);
    lemma_data_is_taken_in(typed, lines, path, base64, reading);
    lemma_then(state, kind, typed, data, path, base64, reading);
    assert((kind + data).last() == 10);
    lemma_then(state, kind + data, filled, seq![10u8], path, base64, reading);
    let nothing = Seq::<u8>::empty();
    assert(nothing + seq![10u8] =~= seq![10u8]);
    encode_utf8_valid_utf8(Seq::<char>::empty());
    encode_utf8_decode_utf8(Seq::<char>::empty());
    assert(encode_utf8(Seq::<char>::empty()) =~= nothing);
    law_line_is_taken_in(filled, nothing, seq![10u8], path, base64, reading);
    assert(filled.dispatched() =~= state);
}

/// What a server writes as a data event is what the parser delivers: the lines, with a line feed
/// between two of them.
pub proof fn law_written_data_is_delivered(
    lines: Seq<Seq<char>>,
    path: Seq<char>,
    reading: ControlReading,
)
    requires
        forall|i: int| 0 <= i < lines.len() ==> one_line(#[trigger] lines[i]),
    ensures
        SseState::initial().with_bytes(event_bytes("data"@, lines)).drained(path, false, reading).1
            == Ok::<Seq<EventView>, ErrorView>(
            seq![EventView::Data(encode_utf8(joined_lines(lines)))],
        ),
{
    reveal_strlit("data");
    assert(one_line("data"@));
    law_written_event_is_dispatched("data"@, lines, path, false, reading);
}

} // verus!
