//! What a read of a stream asks for and returns.
use crate::text::opt_view;
use crate::types::offset::{Offset, OffsetView};
use vstd::prelude::*;

verus! {

/// How a read waits for data.
#[derive(Debug, Clone, Copy, PartialEq, Eq, Structural)]
pub enum ReadMode {
    CatchUp,
    LongPoll,
}

/// A request to read from a stream.
#[derive(Debug, PartialEq, Eq)]
pub struct ReadRequest {
    pub offset: Offset,
    pub mode: ReadMode,
    pub cursor: Option<String>,
}

impl Clone for ReadRequest {
    fn clone(&self) -> (r: ReadRequest)
        ensures
            r == *self,
    {
        ReadRequest {
            offset: self.offset.clone(),
            mode: self.mode,
            cursor: match &self.cursor {
                Some(cursor) => Some(cursor.clone()),
                None => None,
            },
        }
    }
}

impl Default for ReadRequest {
    fn default() -> (r: ReadRequest)
        ensures
            r.offset@ == OffsetView::Start,
            r.mode == ReadMode::CatchUp,
            r.cursor is None,
    {
        ReadRequest { offset: Offset::Start, mode: ReadMode::CatchUp, cursor: None }
    }
}

/// What a read returned.
#[derive(Debug, PartialEq, Eq)]
pub struct ReadResponse {
    pub bytes: Vec<u8>,
    pub content_type: Option<String>,
    pub next_offset: Offset,
    pub up_to_date: bool,
    pub stream_closed: bool,
    pub cursor: Option<String>,
    pub etag: Option<String>,
}

/// What a [`ReadResponse`] stands for.
pub ghost struct ReadResponseView {
    pub bytes: Seq<u8>,
    pub content_type: Option<Seq<char>>,
    pub next_offset: OffsetView,
    pub up_to_date: bool,
    pub stream_closed: bool,
    pub cursor: Option<Seq<char>>,
    pub etag: Option<Seq<char>>,
}

impl View for ReadResponse {
    type V = ReadResponseView;

    open spec fn view(&self) -> ReadResponseView {
        ReadResponseView {
            bytes: self.bytes@,
            content_type: opt_view(self.content_type),
            next_offset: self.next_offset@,
            up_to_date: self.up_to_date,
            stream_closed: self.stream_closed,
            cursor: opt_view(self.cursor),
            etag: opt_view(self.etag),
        }
    }
}

/// What the server says of a stream without sending any of it.
#[derive(Debug, PartialEq, Eq)]
pub struct StreamMetadata {
    pub content_type: Option<String>,
    pub next_offset: Offset,
    pub stream_closed: bool,
    pub etag: Option<String>,
}

/// What a [`StreamMetadata`] stands for.
pub ghost struct MetadataView {
    pub content_type: Option<Seq<char>>,
    pub next_offset: OffsetView,
    pub stream_closed: bool,
    pub etag: Option<Seq<char>>,
}

impl View for StreamMetadata {
    type V = MetadataView;

    open spec fn view(&self) -> MetadataView {
        MetadataView {
            content_type: opt_view(self.content_type),
            next_offset: self.next_offset@,
            stream_closed: self.stream_closed,
            etag: opt_view(self.etag),
        }
    }
}

} // verus!
