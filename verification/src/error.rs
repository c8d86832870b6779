//! What can go wrong when talking to a Durable Streams server.
use crate::bindings::{describe_status, status_text};
use crate::text::{concat, concat3, opt_view};
use crate::time::TimeSpan;
use vstd::prelude::*;
use vstd::string::*;

verus! {

/// A failure of a Durable Streams client.
#[derive(Debug)]
pub enum Error {
    InvalidBaseUrl { url: String, source: String },
    InvalidStreamPath { path: String, reason: String },
    Transport { operation: &'static str, path: String, source: String },
    Http(HttpError),
    MissingHeader { operation: &'static str, path: String, name: &'static str },
    InvalidHeader { operation: &'static str, path: String, name: &'static str, reason: String },
    InvalidSse { path: String, reason: String },
}

/// The class of an unsuccessful response.
#[derive(Debug, Clone, Copy, PartialEq, Eq, Structural)]
pub enum ErrorKind {
    Network,
    Timeout,
    InvalidOffset,
    BadRequest,
    Forbidden,
    NotFound,
    Conflict,
    StreamClosed,
    PayloadTooLarge,
    TooManyRequests,
    ServiceUnavailable,
    InternalServerError,
    UnexpectedStatus,
}

/// The status of a response: a number from 100 to 999.
#[derive(Debug, Clone, Copy, PartialEq, Eq)]
pub struct StatusCode(u16);

impl View for StatusCode {
    type V = u16;

    closed spec fn view(&self) -> u16 {
        self.0
    }
}

impl StatusCode {
    #[verifier::type_invariant]
    spec fn well_formed(self) -> bool {
        100 <= self.0 <= 999
    }

    /// The status with the given number, if there can be one.
    pub fn from_u16(code: u16) -> (r: Option<StatusCode>)
        ensures
            r is Some <==> 100 <= code <= 999,
            r matches Some(status) ==> status@ == code,
    {
        if code >= 100 && code <= 999 {
            Some(StatusCode(code))
        } else {
            None
        }
    }

    /// The number of the status.
    pub fn as_u16(&self) -> (r: u16)
        ensures
            r == self@,
            100 <= r <= 999,
    {
        proof {
            use_type_invariant(self);
        }
        self.0
    }

    /// Whether the status says that the request succeeded.
    pub fn is_success(&self) -> (r: bool)
        ensures
            r == (200 <= self@ < 300),
    {
        200 <= self.0 && self.0 < 300
    }
}

/// An unsuccessful response of the server.
#[derive(Debug)]
pub struct HttpError {
    pub operation: &'static str,
    pub path: String,
    pub status: StatusCode,
    pub kind: ErrorKind,
    pub message: Option<String>,
    pub retry_after: Option<TimeSpan>,
    pub next_offset: Option<String>,
    pub stream_closed: bool,
}

/// What an [`HttpError`] stands for.
pub ghost struct HttpErrorView {
    pub operation: Seq<char>,
    pub path: Seq<char>,
    pub status: u16,
    pub kind: ErrorKind,
    pub message: Option<Seq<char>>,
    pub retry_after: Option<nat>,
    pub next_offset: Option<Seq<char>>,
    pub stream_closed: bool,
}

/// What an [`Error`] stands for.
pub ghost enum ErrorView {
    InvalidBaseUrl { url: Seq<char>, source: Seq<char> },
    InvalidStreamPath { path: Seq<char>, reason: Seq<char> },
    Transport { operation: Seq<char>, path: Seq<char>, source: Seq<char> },
    Http(HttpErrorView),
    MissingHeader { operation: Seq<char>, path: Seq<char>, name: Seq<char> },
    InvalidHeader { operation: Seq<char>, path: Seq<char>, name: Seq<char>, reason: Seq<char> },
    InvalidSse { path: Seq<char>, reason: Seq<char> },
}

/// The length of the span in nanoseconds, if there is one.
pub open spec fn opt_nanos(span: Option<TimeSpan>) -> Option<nat> {
    match span {
        Some(s) => Some(s@),
        None => None,
    }
}

impl View for HttpError {
    type V = HttpErrorView;

    open spec fn view(&self) -> HttpErrorView {
        HttpErrorView {
            operation: self.operation@,
            path: self.path@,
            status: self.status@,
            kind: self.kind,
            message: opt_view(self.message),
            retry_after: opt_nanos(self.retry_after),
            next_offset: opt_view(self.next_offset),
            stream_closed: self.stream_closed,
        }
    }
}

impl View for Error {
    type V = ErrorView;

    open spec fn view(&self) -> ErrorView {
        match self {
            Error::InvalidBaseUrl { url, source } => ErrorView::InvalidBaseUrl {
                url: url@,
                source: source@,
            },
            Error::InvalidStreamPath { path, reason } => ErrorView::InvalidStreamPath {
                path: path@,
                reason: reason@,
            },
            Error::Transport { operation, path, source } => ErrorView::Transport {
                operation: operation@,
                path: path@,
                source: source@,
            },
            Error::Http(error) => ErrorView::Http(error@),
            Error::MissingHeader { operation, path, name } => ErrorView::MissingHeader {
                operation: operation@,
                path: path@,
                name: name@,
            },
            Error::InvalidHeader { operation, path, name, reason } => ErrorView::InvalidHeader {
                operation: operation@,
                path: path@,
                name: name@,
                reason: reason@,
            },
            Error::InvalidSse { path, reason } => ErrorView::InvalidSse {
                path: path@,
                reason: reason@,
            },
        }
    }
}

/// The failure to read an empty text as an offset.
pub open spec fn empty_offset() -> ErrorView {
    ErrorView::InvalidHeader {
        operation: "parse"@,
        path: "<offset>"@,
        name: "Stream-Next-Offset"@,
        reason: "offset cannot be empty"@,
    }
}

impl ErrorKind {
    /// The name of the class.
    pub open spec fn spec_name(self) -> Seq<char> {
        match self {
            ErrorKind::Network => "Network"@,
            ErrorKind::Timeout => "Timeout"@,
            ErrorKind::InvalidOffset => "InvalidOffset"@,
            ErrorKind::BadRequest => "BadRequest"@,
            ErrorKind::Forbidden => "Forbidden"@,
            ErrorKind::NotFound => "NotFound"@,
            ErrorKind::Conflict => "Conflict"@,
            ErrorKind::StreamClosed => "StreamClosed"@,
            ErrorKind::PayloadTooLarge => "PayloadTooLarge"@,
            ErrorKind::TooManyRequests => "TooManyRequests"@,
            ErrorKind::ServiceUnavailable => "ServiceUnavailable"@,
            ErrorKind::InternalServerError => "InternalServerError"@,
            ErrorKind::UnexpectedStatus => "UnexpectedStatus"@,
        }
    }

    /// Whether a request that failed with this class may succeed when it is sent again.
    pub open spec fn transient(self) -> bool {
        ||| self is Network
        ||| self is Timeout
        ||| self is TooManyRequests
        ||| self is ServiceUnavailable
        ||| self is InternalServerError
    }

    /// The name of the class.
    pub fn name(self) -> (r: &'static str)
        ensures
            r@ == self.spec_name(),
    {
        match self {
            ErrorKind::Network => "Network",
            ErrorKind::Timeout => "Timeout",
            ErrorKind::InvalidOffset => "InvalidOffset",
            ErrorKind::BadRequest => "BadRequest",
            ErrorKind::Forbidden => "Forbidden",
            ErrorKind::NotFound => "NotFound",
            ErrorKind::Conflict => "Conflict",
            ErrorKind::StreamClosed => "StreamClosed",
            ErrorKind::PayloadTooLarge => "PayloadTooLarge",
            ErrorKind::TooManyRequests => "TooManyRequests",
            ErrorKind::ServiceUnavailable => "ServiceUnavailable",
            ErrorKind::InternalServerError => "InternalServerError",
            ErrorKind::UnexpectedStatus => "UnexpectedStatus",
        }
    }
}

/// What stands behind the description of a failed response: the message, if there is one and it
/// says anything.
pub open spec fn message_suffix(message: Option<Seq<char>>) -> Seq<char> {
    match message {
        Some(text) => if text.len() > 0 {
            ": "@ + text
        } else {
            Seq::empty()
        },
        None => Seq::empty(),
    }
}

impl HttpErrorView {
    /// The failure in words, where `status` is its status in words.
    pub open spec fn described(self, status: Seq<char>) -> Seq<char> {
        "HTTP "@ + status + " ("@ + self.kind.spec_name() + ") during "@ + self.operation + " "@
            + self.path + message_suffix(self.message)
    }

    /// The failure in words.
    pub open spec fn message(self) -> Seq<char> {
        self.described(status_text(self.status))
    }
}

impl ErrorView {
    /// The failure in words.
    pub open spec fn message(self) -> Seq<char> {
        match self {
            ErrorView::InvalidBaseUrl { url, .. } => "invalid durable streams base URL `"@ + url
                + "`"@,
            ErrorView::InvalidStreamPath { path, reason } => "invalid stream path `"@ + path
                + "`: "@ + reason,
            ErrorView::Transport { operation, path, source } => "HTTP transport error during "@
                + operation + " "@ + path + ": "@ + source,
            ErrorView::Http(error) => error.message(),
            ErrorView::MissingHeader { operation, path, name } => "missing required header `"@
                + name + "` on "@ + operation + " "@ + path,
            ErrorView::InvalidHeader { operation, path, name, reason } => "invalid header `"@ + name
                + "` on "@ + operation + " "@ + path + ": "@ + reason,
            ErrorView::InvalidSse { path, reason } => "invalid SSE event on "@ + path + ": "@
                + reason,
        }
    }
}

/// What stands behind the description of a failed response.
fn display_message(message: Option<&str>) -> (r: String)
    ensures
        r@ == message_suffix(
            match message {
                Some(text) => Some(text@),
                None => None,
            },
        ),
{
    match message {
        Some(message) => if message.is_empty() {
            String::new()
        } else {
            concat(": ", message)
        },
        None => String::new(),
    }
}

impl HttpError {
    /// Whether the request may succeed when it is sent again.
    #[must_use]
    pub fn is_retryable(&self) -> (r: bool)
        ensures
            r == self.kind.transient(),
    {
        matches!(
            self.kind,
            ErrorKind::Network | ErrorKind::Timeout | ErrorKind::TooManyRequests
                | ErrorKind::ServiceUnavailable | ErrorKind::InternalServerError
        )
    }

    /// The failure in words, where `status` is its status in words.
    pub fn describe(&self, status: &str) -> (r: String)
        ensures
            r@ == self@.described(status@),
    {
        let suffix = display_message(
            match &self.message {
                Some(message) => Some(message.as_str()),
                None => None,
            },
        );
        let mut out = concat3("HTTP ", status, " (");
        out.append(self.kind.name());
        out.append(") during ");
        out.append(self.operation);
        out.append(" ");
        out.append(self.path.as_str());
        out.append(suffix.as_str());
        out
    }

    /// The failure in words.
    pub fn message(&self) -> (r: String)
        ensures
            r@ == self@.message(),
    {
        let status = describe_status(self.status.as_u16());
        self.describe(status.as_str())
    }
}

impl Error {
    /// The failure in words.
    pub fn message(&self) -> (r: String)
        ensures
            r@ == self@.message(),
    {
        match self {
            Error::InvalidBaseUrl { url, .. } => concat3(
                "invalid durable streams base URL `",
                url.as_str(),
                "`",
            ),
            Error::InvalidStreamPath { path, reason } => {
                let mut out = concat3("invalid stream path `", path.as_str(), "`: ");
                out.append(reason.as_str());
                out
            },
            Error::Transport { operation, path, source } => {
                let mut out = concat3("HTTP transport error during ", operation, " ");
                out.append(path.as_str());
                out.append(": ");
                out.append(source.as_str());
                out
            },
            Error::Http(error) => error.message(),
            Error::MissingHeader { operation, path, name } => {
                let mut out = concat3("missing required header `", name, "` on ");
                out.append(operation);
                out.append(" ");
                out.append(path.as_str());
                out
            },
            Error::InvalidHeader { operation, path, name, reason } => {
                let mut out = concat3("invalid header `", name, "` on ");
                out.append(operation);
                out.append(" ");
                out.append(path.as_str());
                out.append(": ");
                out.append(reason.as_str());
                out
            },
            Error::InvalidSse { path, reason } => {
                let mut out = concat3("invalid SSE event on ", path.as_str(), ": ");
                out.append(reason.as_str());
                out
            },
        }
    }
}

} // verus!
