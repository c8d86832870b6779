//! What holds of the reading of response headers, and of failed responses.
use crate::bindings::header_values;
use crate::error::{ErrorKind, ErrorView};
use crate::laws::text::{law_equal_ignoring_case, law_parsed_u64, same_letter};
use crate::protocol::headers::{
    all_visible, ascii_text, error_kind, first_value, header_is_true, header_text, http_failure,
    is_visible, offset_outcome, retry_after_nanos,
};
use crate::text::{ascii_lowered, blank, decimal_value, occurs_in, parsed_u64, trimmed};
use crate::types::offset::OffsetView;
use reqwest::header::HeaderMap;
use vstd::prelude::*;
use vstd::string::*;

verus! {

/// The first value that the message has under the name, which is in lower case.
pub open spec fn value_under(headers: HeaderMap, name: Seq<char>) -> Option<Seq<u8>> {
    if header_values(headers).contains_key(name) {
        Some(header_values(headers)[name][0])
    } else {
        None
    }
}

/// Whether the value is the word `true`, each letter in either case.
pub open spec fn says_true(value: Option<Seq<u8>>) -> bool {
    value matches Some(bytes) && bytes.len() == 4 && (bytes[0] == 116 || bytes[0] == 84) && (
    bytes[1] == 114 || bytes[1] == 82) && (bytes[2] == 117 || bytes[2] == 85) && (bytes[3] == 101
        || bytes[3] == 69)
}

/// Whether each byte is a tab, a space or a visible character of ASCII.
pub open spec fn printable(bytes: Seq<u8>) -> bool {
    forall|i: int| 0 <= i < bytes.len() ==> #[trigger] bytes[i] == 9 || 32 <= bytes[i] <= 126
}

/// Whether the text is made of the characters that the bytes are the numbers of.
pub open spec fn spells(bytes: Seq<u8>, text: Seq<char>) -> bool {
    text.len() == bytes.len() && forall|i: int|
        0 <= i < bytes.len() ==> #[trigger] text[i] as u32 == bytes[i]
}

/// Whether the text is what the value says: nothing where there is no value, or where it is not
/// printable.
pub open spec fn text_of_value(value: Option<Seq<u8>>, text: Option<Seq<char>>) -> bool {
    match value {
        Some(bytes) => if printable(bytes) {
            text is Some && spells(bytes, text->0)
        } else {
            text is None
        },
        None => text is None,
    }
}

/// Whether the text holds no capital letter of ASCII.
pub open spec fn no_capitals(name: Seq<char>) -> bool {
    forall|i: int| 0 <= i < name.len() ==> !('A' <= #[trigger] name[i] <= 'Z')
}

/// The names of the headers of the protocol hold no capitals.
pub proof fn law_names_hold_no_capitals()
    ensures
        no_capitals("stream-next-offset"@),
        no_capitals("stream-up-to-date"@),
        no_capitals("stream-closed"@),
        no_capitals("stream-cursor"@),
        no_capitals("stream-sse-data-encoding"@),
        no_capitals("retry-after"@),
        no_capitals("etag"@),
        no_capitals("content-type"@),
{
    reveal_strlit("stream-next-offset");
    reveal_strlit("stream-up-to-date");
    reveal_strlit("stream-closed");
    reveal_strlit("stream-cursor");
    reveal_strlit("stream-sse-data-encoding");
    reveal_strlit("retry-after");
    reveal_strlit("etag");
    reveal_strlit("content-type");
}

proof fn lemma_value_under(headers: HeaderMap, name: Seq<char>)
    requires
        no_capitals(name),
    ensures
        first_value(headers, name) == value_under(headers, name),
{
    assert(ascii_lowered(name) =~= name) by {
        assert forall|i: int| 0 <= i < name.len() implies ascii_lowered(name)[i] == name[i] by {
            assert(!('A' <= name[i] <= 'Z'));
        }
    }
}

proof fn lemma_visible(bytes: Seq<u8>)
    ensures
        all_visible(bytes) <==> printable(bytes),
        spells(bytes, ascii_text(bytes)) || !printable(bytes),
{
    if all_visible(bytes) {
        assert forall|i: int| 0 <= i < bytes.len() implies #[trigger] bytes[i] == 9 || 32
            <= bytes[i] <= 126 by {
            assert(is_visible(bytes[i]));
        }
    }
}

proof fn lemma_same_character(a: char, b: char)
    requires
        a as u32 == b as u32,
    ensures
        a == b,
{
}

/// A header gives its first value as text, letter for letter, unless it is missing or not
/// printable. It says true where that value is the word, in whatever case. Nothing else in the
/// message matters.
pub proof fn law_header_is_its_first_value(headers: HeaderMap, name: Seq<char>)
    requires
        no_capitals(name),
    ensures
        text_of_value(value_under(headers, name), header_text(headers, name)),
        header_is_true(headers, name) <==> says_true(value_under(headers, name)),
{
    lemma_value_under(headers, name);
    reveal_strlit("true");
    if let Some(bytes) = value_under(headers, name) {
        lemma_visible(bytes);
        let text = ascii_text(bytes);
        law_equal_ignoring_case(text, "true"@);
        if all_visible(bytes) {
            assert(text.len() == bytes.len());
            if header_is_true(headers, name) {
                assert(same_letter(text[0], "true"@[0]));
                assert(same_letter(text[1], "true"@[1]));
                assert(same_letter(text[2], "true"@[2]));
                assert(same_letter(text[3], "true"@[3]));
                assert(says_true(Some(bytes)));
            }
            if says_true(Some(bytes)) {
                assert forall|i: int| 0 <= i < text.len() implies same_letter(
                    #[trigger] text[i],
                    "true"@[i],
                ) by {
                    assert(text[i] as u32 == bytes[i]);
                }
            }
        } else if says_true(Some(bytes)) {
            assert(printable(bytes));
        }
    }
}

/// Two messages with the same first value under a name agree on what the header says, whatever
/// else they hold.
pub proof fn law_other_headers_do_not_matter(a: HeaderMap, b: HeaderMap, name: Seq<char>)
    requires
        no_capitals(name),
        value_under(a, name) == value_under(b, name),
    ensures
        header_text(a, name) == header_text(b, name),
        header_is_true(a, name) == header_is_true(b, name),
{
    lemma_value_under(a, name);
    lemma_value_under(b, name);
}

/// The next offset is what its header spells. A message without the header, or with one that is
/// not printable, is refused.
pub proof fn law_next_offset(headers: HeaderMap, operation: Seq<char>, path: Seq<char>)
    ensures
        match value_under(headers, "stream-next-offset"@) {
            Some(bytes) => if printable(bytes) {
                offset_outcome(headers, operation, path) matches Ok(offset) && spells(
                    bytes,
                    offset.text(),
                ) && offset == OffsetView::of_text(offset.text())
            } else {
                offset_outcome(headers, operation, path) == Err::<OffsetView, ErrorView>(
                    ErrorView::InvalidHeader {
                        operation,
                        path,
                        name: "Stream-Next-Offset"@,
                        reason: "header was not valid ASCII"@,
                    },
                )
            },
            None => offset_outcome(headers, operation, path) == Err::<OffsetView, ErrorView>(
                ErrorView::MissingHeader { operation, path, name: "Stream-Next-Offset"@ },
            ),
        },
{
    law_names_hold_no_capitals();
    lemma_value_under(headers, "stream-next-offset"@);
    if let Some(bytes) = value_under(headers, "stream-next-offset"@) {
        lemma_visible(bytes);
    }
}

/// The wait that a server asks for is a whole number of seconds in decimal digits. Without the
/// header, or where it holds anything but digits, no wait is asked for.
pub proof fn law_wait_is_in_seconds(headers: HeaderMap, digits: Seq<char>)
    ensures
        value_under(headers, "retry-after"@) is None ==> retry_after_nanos(headers) is None,
        value_under(headers, "retry-after"@) matches Some(bytes) ==> spells(bytes, digits)
            && digits.len() > 0 && (forall|i: int|
            0 <= i < digits.len() ==> '0' <= #[trigger] digits[i] <= '9') && decimal_value(digits)
            <= 0xffff_ffff_ffff_ffff ==> retry_after_nanos(headers) == Some(
            decimal_value(digits) * 1_000_000_000,
        ),
        value_under(headers, "retry-after"@) matches Some(bytes) ==> (exists|i: int|
            0 <= i < bytes.len() && !(48 <= #[trigger] bytes[i] <= 57) && (i > 0 || bytes[i] != 43))
            ==> retry_after_nanos(headers) is None,
        value_under(headers, "retry-after"@) matches Some(bytes) ==> printable(bytes) && spells(
            bytes,
            digits,
        ) ==> match parsed_u64(digits) {
            Some(secs) => retry_after_nanos(headers) == Some((secs * 1_000_000_000) as nat),
            None => retry_after_nanos(headers) is None,
        },
        value_under(headers, "retry-after"@) matches Some(bytes) ==> !printable(bytes)
            ==> retry_after_nanos(headers) is None,
{
    let name = "retry-after"@;
    law_names_hold_no_capitals();
    lemma_value_under(headers, name);
    if let Some(bytes) = value_under(headers, name) {
        lemma_visible(bytes);
        let text = ascii_text(bytes);
        assert(text.len() == bytes.len());
        law_parsed_u64(text);
        if spells(bytes, digits) && printable(bytes) {
            assert(text =~= digits) by {
                assert forall|i: int| 0 <= i < text.len() implies text[i] == digits[i] by {
                    assert(text[i] as u32 == bytes[i]);
                    assert(digits[i] as u32 == bytes[i]);
                    lemma_same_character(text[i], digits[i]);
                }
            }
        }
        if spells(bytes, digits) && digits.len() > 0 && forall|i: int|
            0 <= i < digits.len() ==> '0' <= #[trigger] digits[i] <= '9' {
            assert forall|i: int| 0 <= i < bytes.len() implies #[trigger] bytes[i] == 9 || 32
                <= bytes[i] <= 126 by {
                assert('0' <= digits[i] <= '9');
                assert(digits[i] as u32 == bytes[i]);
            }
            assert(text =~= digits) by {
                assert forall|i: int| 0 <= i < text.len() implies text[i] == digits[i] by {
                    assert(text[i] as u32 == bytes[i]);
                    assert(digits[i] as u32 == bytes[i]);
                }
            }
        }
        if all_visible(bytes) && exists|i: int|
            0 <= i < bytes.len() && !(48 <= #[trigger] bytes[i] <= 57) && (i > 0 || bytes[i]
                != 43) {
            let i = choose|i: int|
                0 <= i < bytes.len() && !(48 <= #[trigger] bytes[i] <= 57) && (i > 0 || bytes[i]
                    != 43);
            assert(text[i] as u32 == bytes[i]);
            assert(!('0' <= text[i] <= '9'));
        }
    }
}

/// Each status of the protocol has a class of its own. A refused request is one for a bad offset
/// where its text speaks of an offset, in whatever case, and a conflict is one with a closed
/// stream where the response says so. All other statuses are unexpected.
pub proof fn law_classes_of_statuses(status: u16, text: Seq<char>, stream_closed: bool)
    ensures
        ({
            let kind = error_kind(status, text, stream_closed);
            &&& status == 400 ==> (kind is InvalidOffset <==> occurs_in(
                ascii_lowered(text),
                "offset"@,
            )) && (kind is InvalidOffset || kind is BadRequest)
            &&& status == 403 <==> kind is Forbidden
            &&& status == 404 <==> kind is NotFound
            &&& status == 409 && stream_closed <==> kind is StreamClosed
            &&& status == 409 && !stream_closed <==> kind is Conflict
            &&& status == 413 <==> kind is PayloadTooLarge
            &&& status == 429 <==> kind is TooManyRequests
            &&& status == 500 <==> kind is InternalServerError
            &&& status == 503 <==> kind is ServiceUnavailable
            &&& kind is InvalidOffset || kind is BadRequest ==> status == 400
            &&& !(kind is Network) && !(kind is Timeout)
            &&& status != 400 && status != 403 && status != 404 && status != 409 && status != 413
                && status != 429 && status != 500 && status != 503 <==> kind is UnexpectedStatus
        }),
{
}

/// The classes that the next attempt may meet differently.
pub proof fn law_transient_classes(kind: ErrorKind)
    ensures
        kind.transient() <==> kind == ErrorKind::Network || kind == ErrorKind::Timeout || kind
            == ErrorKind::TooManyRequests || kind == ErrorKind::ServiceUnavailable || kind
            == ErrorKind::InternalServerError,
{
}

/// A failed response is reported with what was asked for, its status, the text of its body
/// without white space around it, if there is any, and what its headers say.
pub proof fn law_failed_response_is_reported(
    operation: Seq<char>,
    path: Seq<char>,
    status: u16,
    headers: HeaderMap,
    body: Seq<char>,
)
    ensures
        ({
            let error = http_failure(operation, path, status, headers, body);
            &&& error.operation == operation
            &&& error.path == path
            &&& error.status == status
            &&& error.kind == error_kind(status, trimmed(body), error.stream_closed)
            &&& trimmed(body).len() == 0 <==> error.message is None
            &&& error.message is Some ==> error.message->0 == trimmed(body)
            &&& error.stream_closed <==> says_true(value_under(headers, "stream-closed"@))
            &&& text_of_value(value_under(headers, "stream-next-offset"@), error.next_offset)
            &&& error.retry_after == retry_after_nanos(headers)
            &&& blank(body) ==> error.message is None
        }),
{
    law_names_hold_no_capitals();
    law_header_is_its_first_value(headers, "stream-closed"@);
    law_header_is_its_first_value(headers, "stream-next-offset"@);
    crate::laws::text::law_trimmed(body);
}

} // verus!
