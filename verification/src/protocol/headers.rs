//! Reading of response headers, and classification of unsuccessful responses.
use crate::bindings::{
    first_of, header_first, header_name, header_values, lossy_text, utf8_lossy, CHECKED_NAME_LEN,
};
use crate::error::{
    opt_nanos, Error, ErrorKind, ErrorView, HttpError, HttpErrorView, StatusCode,
};
use crate::text::{
    ascii_lowered, contains_text, eq_ignore_ascii_case, equal_ignoring_case, occurs_in, opt_view,
    parse_u64, parsed_u64, to_ascii_lowercase, trim, trimmed,
};
use crate::time::{TimeSpan, NANOS_PER_SEC};
use crate::types::offset::{Offset, OffsetView};
use reqwest::header::HeaderMap;
use vstd::prelude::*;
use vstd::string::*;
use vstd::utf8::*;

verus! {

/// The offset for the next read.
pub const STREAM_NEXT_OFFSET: &'static str = "stream-next-offset";

/// Whether the response reaches the end of the stream.
pub const STREAM_UP_TO_DATE: &'static str = "stream-up-to-date";

/// Whether the stream is closed.
pub const STREAM_CLOSED: &'static str = "stream-closed";

/// The cursor for the next long poll.
pub const STREAM_CURSOR: &'static str = "stream-cursor";

/// How the data of server-sent events is encoded.
pub const STREAM_SSE_DATA_ENCODING: &'static str = "stream-sse-data-encoding";

/// How long to wait before the next try.
pub const RETRY_AFTER: &'static str = "retry-after";

/// The version of the response.
pub const ETAG: &'static str = "etag";

/// The type of the content.
pub const CONTENT_TYPE: &'static str = "content-type";

/// The first value of the header, if the message has one.
pub open spec fn first_value(headers: HeaderMap, name: Seq<char>) -> Option<Seq<u8>> {
    first_of(header_values(headers), name)
}

/// Whether the byte is a visible ASCII character, a space or a tab.
pub open spec fn is_visible(byte: u8) -> bool {
    32 <= byte < 127 || byte == 9
}

/// Whether the bytes are visible ASCII.
pub open spec fn all_visible(bytes: Seq<u8>) -> bool {
    forall|i: int| 0 <= i < bytes.len() ==> is_visible(#[trigger] bytes[i])
}

/// The text of ASCII bytes.
pub open spec fn ascii_text(bytes: Seq<u8>) -> Seq<char> {
    bytes.map_values(|b: u8| b as char)
}

/// The text of the header, if the message has it and it is visible ASCII.
pub open spec fn header_text(headers: HeaderMap, name: Seq<char>) -> Option<Seq<char>> {
    match first_value(headers, name) {
        Some(bytes) => if all_visible(bytes) {
            Some(ascii_text(bytes))
        } else {
            None
        },
        None => None,
    }
}

/// Whether the header says `true`, in whatever case.
pub open spec fn header_is_true(headers: HeaderMap, name: Seq<char>) -> bool {
    match header_text(headers, name) {
        Some(text) => equal_ignoring_case(text, "true"@),
        None => false,
    }
}

/// The offset that the response gives for the next read, or what is wrong with the response.
pub open spec fn offset_outcome(headers: HeaderMap, operation: Seq<char>, path: Seq<char>) -> Result<
    OffsetView,
    ErrorView,
> {
    match first_value(headers, "stream-next-offset"@) {
        None => Err(ErrorView::MissingHeader { operation, path, name: "Stream-Next-Offset"@ }),
        Some(bytes) => if all_visible(bytes) {
            Ok(OffsetView::of_text(ascii_text(bytes)))
        } else {
            Err(
                ErrorView::InvalidHeader {
                    operation,
                    path,
                    name: "Stream-Next-Offset"@,
                    reason: "header was not valid ASCII"@,
                },
            )
        },
    }
}

/// How long the server asks to wait before the next try, in nanoseconds: a whole number of
/// seconds.
pub open spec fn retry_after_nanos(headers: HeaderMap) -> Option<nat> {
    match header_text(headers, "retry-after"@) {
        Some(text) => match parsed_u64(text) {
            Some(secs) => Some((secs * NANOS_PER_SEC) as nat),
            None => None,
        },
        None => None,
    }
}

/// The class of an unsuccessful response with the given status and body text.
pub open spec fn error_kind(status: u16, text: Seq<char>, stream_closed: bool) -> ErrorKind {
    if status == 400 {
        if occurs_in(ascii_lowered(text), "offset"@) {
            ErrorKind::InvalidOffset
        } else {
            ErrorKind::BadRequest
        }
    } else if status == 403 {
        ErrorKind::Forbidden
    } else if status == 404 {
        ErrorKind::NotFound
    } else if status == 409 {
        if stream_closed {
            ErrorKind::StreamClosed
        } else {
            ErrorKind::Conflict
        }
    } else if status == 413 {
        ErrorKind::PayloadTooLarge
    } else if status == 429 {
        ErrorKind::TooManyRequests
    } else if status == 503 {
        ErrorKind::ServiceUnavailable
    } else if status == 500 {
        ErrorKind::InternalServerError
    } else {
        ErrorKind::UnexpectedStatus
    }
}

/// The failure that an unsuccessful response with the given body text amounts to.
pub open spec fn http_failure(
    operation: Seq<char>,
    path: Seq<char>,
    status: u16,
    headers: HeaderMap,
    body: Seq<char>,
) -> HttpErrorView {
    let text = trimmed(body);
    let stream_closed = header_is_true(headers, "stream-closed"@);
    HttpErrorView {
        operation,
        path,
        status,
        kind: error_kind(status, text, stream_closed),
        message: if text.len() == 0 {
            None
        } else {
            Some(text)
        },
        retry_after: retry_after_nanos(headers),
        next_offset: header_text(headers, "stream-next-offset"@),
        stream_closed,
    }
}

/// The names of the headers of the protocol are header names.
pub proof fn lemma_header_names()
    ensures
        header_name(STREAM_NEXT_OFFSET@),
        header_name(STREAM_UP_TO_DATE@),
        header_name(STREAM_CLOSED@),
        header_name(STREAM_CURSOR@),
        header_name(STREAM_SSE_DATA_ENCODING@),
        header_name(RETRY_AFTER@),
        header_name(ETAG@),
        header_name(CONTENT_TYPE@),
{
    reveal_strlit("!#$%&'*+-.^_`|~");
    assert("!#$%&'*+-.^_`|~"@[8] == '-');
    reveal_strlit("stream-next-offset");
    reveal_strlit("stream-up-to-date");
    reveal_strlit("stream-closed");
    reveal_strlit("stream-cursor");
    reveal_strlit("stream-sse-data-encoding");
    reveal_strlit("retry-after");
    reveal_strlit("etag");
    reveal_strlit("content-type");
}

/// The text of ASCII bytes, if they are all visible.
fn visible_text(bytes: &Vec<u8>) -> (r: Option<String>)
    ensures
        opt_view(r) == if all_visible(bytes@) {
            Some(ascii_text(bytes@))
        } else {
            None
        },
{
    let mut out = String::new();
    let mut i: usize = 0;
    while i < bytes.len()
        invariant
            i <= bytes.len(),
            forall|j: int| 0 <= j < i ==> is_visible(#[trigger] bytes@[j]),
            out@ == ascii_text(bytes@.take(i as int)),
        decreases bytes.len() - i,
    {
        let byte = bytes[i];
        if !((byte >= 32 && byte < 127) || byte == 9) {
            assert(!is_visible(bytes@[i as int]));
            return None;
        }
        proof {
            assert(ascii_text(bytes@.take(i + 1)) =~= ascii_text(bytes@.take(i as int)).push(
                byte as char,
            ));
        }
        out.push(byte as char);
        i += 1;
    }
    assert(bytes@.take(bytes.len() as int) =~= bytes@);
    Some(out)
}

/// The offset for the next read. A response without it is not one of this protocol.
pub fn require_offset(headers: &HeaderMap, operation: &'static str, path: &str) -> (r: Result<
    Offset,
    Error,
>)
    ensures
        (match r {
            Ok(offset) => Ok::<OffsetView, ErrorView>(offset@),
            Err(error) => Err::<OffsetView, ErrorView>(error@),
        }) == offset_outcome(*headers, operation@, path@),
{
    proof {
        lemma_header_names();
    }
    let value = match header_first(headers, STREAM_NEXT_OFFSET) {
        Some(value) => value,
        None => {
            return Err(
                Error::MissingHeader {
                    operation,
                    path: path.to_owned(),
                    name: "Stream-Next-Offset",
                },
            );
        },
    };
    match visible_text(&value) {
        Some(text) => Ok(Offset::from(text)),
        None => Err(
            Error::InvalidHeader {
                operation,
                path: path.to_owned(),
                name: "Stream-Next-Offset",
                reason: "header was not valid ASCII".to_owned(),
            },
        ),
    }
}

/// The text of the header, if the message has it and it is visible ASCII.
#[must_use]
pub fn optional_string(headers: &HeaderMap, name: &'static str) -> (r: Option<String>)
    ensures
        header_name(name@) ==> opt_view(r) == header_text(*headers, name@),
        !header_name(name@) && encode_utf8(name@).len() <= CHECKED_NAME_LEN ==> r is None,
{
    match header_first(headers, name) {
        Some(value) => visible_text(&value),
        None => None,
    }
}

/// Whether the header says `true`, in whatever case.
#[must_use]
pub fn has_true_header(headers: &HeaderMap, name: &'static str) -> (r: bool)
    ensures
        header_name(name@) ==> r == header_is_true(*headers, name@),
        !header_name(name@) && encode_utf8(name@).len() <= CHECKED_NAME_LEN ==> !r,
{
    match optional_string(headers, name) {
        Some(value) => eq_ignore_ascii_case(value.as_str(), "true"),
        None => false,
    }
}

/// How long the server asks to wait before the next try.
#[must_use]
pub fn parse_retry_after(headers: &HeaderMap) -> (r: Option<TimeSpan>)
    ensures
        opt_nanos(r) == retry_after_nanos(*headers),
{
    proof {
        lemma_header_names();
    }
    match optional_string(headers, RETRY_AFTER) {
        Some(value) => match parse_u64(value.as_str()) {
            Some(secs) => Some(TimeSpan::from_secs(secs)),
            None => None,
        },
        None => None,
    }
}

/// The class of an unsuccessful response with the given status and body text.
pub fn classify(status: StatusCode, text: &str, stream_closed: bool) -> (r: ErrorKind)
    ensures
        r == error_kind(status@, text@, stream_closed),
{
    let lower = to_ascii_lowercase(text);
    match status.as_u16() {
        400 => if contains_text(lower.as_str(), "offset") {
            ErrorKind::InvalidOffset
        } else {
            ErrorKind::BadRequest
        },
        403 => ErrorKind::Forbidden,
        404 => ErrorKind::NotFound,
        409 => if stream_closed {
            ErrorKind::StreamClosed
        } else {
            ErrorKind::Conflict
        },
        413 => ErrorKind::PayloadTooLarge,
        429 => ErrorKind::TooManyRequests,
        503 => ErrorKind::ServiceUnavailable,
        500 => ErrorKind::InternalServerError,
        _ => ErrorKind::UnexpectedStatus,
    }
}

/// The failure that an unsuccessful response with the given body text amounts to.
pub fn http_error_with_text(
    operation: &'static str,
    path: &str,
    status: StatusCode,
    headers: &HeaderMap,
    body: &str,
) -> (r: HttpError)
    ensures
        r@ == http_failure(operation@, path@, status@, *headers, body@),
{
    proof {
        lemma_header_names();
    }
    let body_text = trim(body);
    let stream_closed = has_true_header(headers, STREAM_CLOSED);
    let next_offset = optional_string(headers, STREAM_NEXT_OFFSET);
    let retry_after = parse_retry_after(headers);
    let kind = classify(status, body_text.as_str(), stream_closed);
    HttpError {
        operation,
        path: path.to_owned(),
        status,
        kind,
        message: if body_text.as_str().is_empty() {
            None
        } else {
            Some(body_text)
        },
        retry_after,
        next_offset,
        stream_closed,
    }
}

/// The failure that an unsuccessful response amounts to.
pub fn http_error(
    operation: &'static str,
    path: &str,
    status: StatusCode,
    headers: &HeaderMap,
    body: &[u8],
) -> (r: Error)
    ensures
        r@ == ErrorView::Http(
            http_failure(operation@, path@, status@, *headers, utf8_lossy(body@)),
        ),
        valid_utf8(body@) ==> r@ == ErrorView::Http(
            http_failure(operation@, path@, status@, *headers, decode_utf8(body@)),
        ),
{
    let text = lossy_text(body);
    Error::Http(http_error_with_text(operation, path, status, headers, text.as_str()))
}

/// A request is worth sending again where the server is busy, unavailable or failing, and for no
/// other status.
pub proof fn law_transient_statuses(status: u16, text: Seq<char>, stream_closed: bool)
    ensures
        error_kind(status, text, stream_closed).transient() <==> status == 429 || status == 500
            || status == 503,
{
}

} // verus!
