//! What a subscription to a stream asks for and delivers.
use crate::text::opt_view;
use crate::types::offset::{Offset, OffsetView};
use vstd::prelude::*;

verus! {

/// A request to follow a stream.
#[derive(Debug, PartialEq, Eq)]
pub struct SubscribeRequest {
    pub offset: Offset,
}

impl Clone for SubscribeRequest {
    fn clone(&self) -> (r: SubscribeRequest)
        ensures
            r == *self,
    {
        SubscribeRequest { offset: self.offset.clone() }
    }
}

impl Default for SubscribeRequest {
    fn default() -> (r: SubscribeRequest)
        ensures
            r.offset@ == OffsetView::Start,
    {
        SubscribeRequest { offset: Offset::Start }
    }
}

/// How far a subscription has come.
#[derive(Debug, PartialEq, Eq)]
pub struct StreamCheckpoint {
    pub next_offset: Offset,
    pub cursor: Option<String>,
    pub up_to_date: bool,
    pub stream_closed: bool,
}

/// What a [`StreamCheckpoint`] stands for.
pub ghost struct CheckpointView {
    pub next_offset: OffsetView,
    pub cursor: Option<Seq<char>>,
    pub up_to_date: bool,
    pub stream_closed: bool,
}

impl View for StreamCheckpoint {
    type V = CheckpointView;

    open spec fn view(&self) -> CheckpointView {
        CheckpointView {
            next_offset: self.next_offset@,
            cursor: opt_view(self.cursor),
            up_to_date: self.up_to_date,
            stream_closed: self.stream_closed,
        }
    }
}

impl Clone for StreamCheckpoint {
    fn clone(&self) -> (r: StreamCheckpoint)
        ensures
            r@ == self@,
    {
        StreamCheckpoint {
            next_offset: self.next_offset.clone(),
            cursor: match &self.cursor {
                Some(cursor) => Some(cursor.clone()),
                None => None,
            },
            up_to_date: self.up_to_date,
            stream_closed: self.stream_closed,
        }
    }
}

/// One delivery of a subscription.
#[derive(Debug, PartialEq, Eq)]
pub enum SubscriptionEvent {
    Data(Vec<u8>),
    Checkpoint(StreamCheckpoint),
}

/// What a [`SubscriptionEvent`] stands for.
pub ghost enum EventView {
    Data(Seq<u8>),
    Checkpoint(CheckpointView),
}

impl View for SubscriptionEvent {
    type V = EventView;

    open spec fn view(&self) -> EventView {
        match self {
            SubscriptionEvent::Data(bytes) => EventView::Data(bytes@),
            SubscriptionEvent::Checkpoint(checkpoint) => EventView::Checkpoint(checkpoint@),
        }
    }
}

/// The views of the events, in order.
pub open spec fn event_views(events: Seq<SubscriptionEvent>) -> Seq<EventView> {
    events.map_values(|e: SubscriptionEvent| e@)
}

} // verus!
