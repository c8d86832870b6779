//! What holds of the forwarding of a stream.
use crate::bridge::{
    data_of, delivery_of, resume_offset, runtime_of, DeliveryView, ForwarderView, RuntimeView,
};
use crate::config::{StreamConfig, TargetConfig, TopicMappingConfig};
use crate::offset_store::StoreView;
use crate::stream::{StreamView, SubscriptionView};
use crate::topic::resolved_topic;
use crate::text::opt_view;
use crate::types::offset::{law_offset_preserves_text, OffsetView};
use crate::types::subscription::{CheckpointView, EventView};
use vstd::prelude::*;
use vstd::string::*;

verus! {

/// Whether the delivery publishes the payload of the stream under the offset: to the topic of the
/// stream, under a key made of its path, a colon and the offset, which both go along.
pub open spec fn publishes(
    delivery: DeliveryView,
    stream: RuntimeView,
    payload: Seq<u8>,
    offset: OffsetView,
) -> bool {
    &&& delivery.record.payload == payload
    &&& delivery.record.topic == stream.topic
    &&& delivery.record.stream_path == stream.path
    &&& delivery.record.next_offset == offset.text()
    &&& delivery.record.key == stream.path + seq![':'] + offset.text()
    &&& delivery.offset == offset
}

/// Every checkpoint, whatever its cursor and its flags, leaves nothing pending. Where data is
/// pending it calls for one delivery, of all of that data and under the next offset of the
/// checkpoint; where none is it calls for nothing.
pub proof fn law_checkpoint_settles_what_is_pending(
    forwarder: ForwarderView,
    checkpoint: CheckpointView,
)
    ensures
        ({
            let event = EventView::Checkpoint(checkpoint);
            &&& forwarder.after(event).pending.len() == 0
            &&& forwarder.after(event).stream == forwarder.stream
            &&& forwarder.pending.len() > 0 ==> (forwarder.delivery(event) matches Some(delivery)
                && publishes(
                delivery,
                forwarder.stream,
                forwarder.pending,
                checkpoint.next_offset,
            ))
            &&& forwarder.pending.len() == 0 ==> forwarder.delivery(event) is None
        }),
{
    law_delivery_of(forwarder.stream, checkpoint.next_offset, forwarder.pending);
}

/// A delivery carries the payload and the offset that it is made of.
pub proof fn law_delivery_of(stream: RuntimeView, next_offset: OffsetView, payload: Seq<u8>)
    ensures
        publishes(delivery_of(stream, next_offset, payload), stream, payload, next_offset),
{
    reveal_strlit(":");
    assert(":"@ =~= seq![':']);
}

/// Data calls for no delivery: it stays, behind what is pending, until a checkpoint comes.
pub proof fn law_data_is_held_back(forwarder: ForwarderView, bytes: Seq<u8>)
    ensures
        ({
            let event = EventView::Data(bytes);
            &&& forwarder.delivery(event) is None
            &&& forwarder.after(event).pending == forwarder.pending + bytes
            &&& forwarder.after(event).stream == forwarder.stream
        }),
{
}

/// A checkpoint with nothing pending changes nothing.
pub proof fn law_bare_checkpoints_change_nothing(
    forwarder: ForwarderView,
    checkpoint: CheckpointView,
)
    ensures
        forwarder.pending.len() == 0 ==> forwarder.after(EventView::Checkpoint(checkpoint))
            == forwarder,
{
    if forwarder.pending.len() == 0 {
        assert(forwarder.after(EventView::Checkpoint(checkpoint)) =~= forwarder);
    }
}

/// Checkpoints with the same next offset have the same effect, whatever else they say.
pub proof fn law_only_the_offset_of_a_checkpoint_matters(
    forwarder: ForwarderView,
    a: CheckpointView,
    b: CheckpointView,
)
    requires
        a.next_offset == b.next_offset,
    ensures
        forwarder.after(EventView::Checkpoint(a)) == forwarder.after(EventView::Checkpoint(b)),
        forwarder.delivery(EventView::Checkpoint(a)) == forwarder.delivery(
            EventView::Checkpoint(b),
        ),
{
    assert(forwarder.after(EventView::Checkpoint(a)) =~= forwarder.after(EventView::Checkpoint(b)));
}

/// The place behind the last checkpoint before the position; the first place where there is none.
pub open spec fn batch_start(events: Seq<EventView>, at: int) -> int
    decreases at,
{
    if at <= 0 {
        0
    } else if events[at - 1] is Checkpoint {
        at
    } else {
        batch_start(events, at - 1)
    }
}

/// The data since the last checkpoint before the position, or since the start, where `pending`
/// came before all events.
pub open spec fn batch(pending: Seq<u8>, events: Seq<EventView>, at: int) -> Seq<u8> {
    let start = batch_start(events, at);
    let data = data_of(events.subrange(start, at));
    if start == 0 {
        pending + data
    } else {
        data
    }
}

/// The number of checkpoints with at least one byte of data since the checkpoint before.
pub open spec fn full_batches(pending: Seq<u8>, events: Seq<EventView>, upto: int) -> nat
    decreases upto,
{
    if upto <= 0 {
        0
    } else {
        full_batches(pending, events, upto - 1) + if events[upto - 1] is Checkpoint && batch(
            pending,
            events,
            upto - 1,
        ).len() > 0 {
            1nat
        } else {
            0nat
        }
    }
}

proof fn lemma_batch_start(events: Seq<EventView>, at: int)
    requires
        0 <= at <= events.len(),
    ensures
        0 <= batch_start(events, at) <= at,
    decreases at,
{
    if at > 0 && !(events[at - 1] is Checkpoint) {
        lemma_batch_start(events, at - 1);
    }
}

/// What is pending is the data since the last checkpoint.
pub proof fn law_pending_is_what_came_since_the_checkpoint(
    forwarder: ForwarderView,
    events: Seq<EventView>,
    at: int,
)
    requires
        0 <= at <= events.len(),
    ensures
        forwarder.after_all(events.take(at)).pending == batch(forwarder.pending, events, at),
        forwarder.after_all(events.take(at)).stream == forwarder.stream,
    decreases at,
{
    let taken = events.take(at);
    lemma_batch_start(events, at);
    if at == 0 {
        assert(events.subrange(0, 0) =~= Seq::<EventView>::empty());
        assert(forwarder.pending + data_of(Seq::empty()) =~= forwarder.pending);
    } else {
        let before = events.take(at - 1);
        assert(taken.drop_last() =~= before);
        assert(taken.last() == events[at - 1]);
        law_pending_is_what_came_since_the_checkpoint(forwarder, events, at - 1);
        let held = forwarder.after_all(before);
        match events[at - 1] {
            EventView::Checkpoint(checkpoint) => {
                law_checkpoint_settles_what_is_pending(held, checkpoint);
                assert(events.subrange(at, at) =~= Seq::<EventView>::empty());
                assert(forwarder.after_all(taken).pending =~= Seq::<u8>::empty());
            },
            EventView::Data(bytes) => {
                law_data_is_held_back(held, bytes);
                let start = batch_start(events, at);
                lemma_batch_start(events, at - 1);
                let part = events.subrange(start, at);
                assert(part.drop_last() =~= events.subrange(start, at - 1));
                assert(part.last() == EventView::Data(bytes));
                assert(data_of(part) == data_of(events.subrange(start, at - 1)) + bytes);
                if start == 0 {
                    assert(forwarder.pending + data_of(part) =~= (forwarder.pending + data_of(
                        events.subrange(start, at - 1),
                    )) + bytes);
                }
            },
        }
    }
}

/// Over a run, each checkpoint with data since the checkpoint before calls for one delivery, of
/// that data and under its offset, and no other event calls for any: there are as many deliveries
/// as such checkpoints.
pub proof fn law_one_delivery_for_each_full_batch(
    forwarder: ForwarderView,
    events: Seq<EventView>,
    at: int,
)
    requires
        0 <= at < events.len(),
    ensures
        ({
            let data = batch(forwarder.pending, events, at);
            let delivery = forwarder.after_all(events.take(at)).delivery(events[at]);
            &&& events[at] is Checkpoint && data.len() > 0 ==> delivery is Some && publishes(
                delivery->0,
                forwarder.stream,
                data,
                events[at]->Checkpoint_0.next_offset,
            )
            &&& events[at] is Data || data.len() == 0 ==> delivery is None
        }),
        forwarder.deliveries(events).len() == full_batches(
            forwarder.pending,
            events,
            events.len() as int,
        ),
{
    law_pending_is_what_came_since_the_checkpoint(forwarder, events, at);
    let held = forwarder.after_all(events.take(at));
    match events[at] {
        EventView::Checkpoint(checkpoint) => {
            law_checkpoint_settles_what_is_pending(held, checkpoint);
        },
        EventView::Data(bytes) => {
            law_data_is_held_back(held, bytes);
        },
    }
    lemma_number_of_deliveries(forwarder, events, events.len() as int);
    assert(events.take(events.len() as int) =~= events);
}

proof fn lemma_number_of_deliveries(forwarder: ForwarderView, events: Seq<EventView>, upto: int)
    requires
        0 <= upto <= events.len(),
    ensures
        forwarder.deliveries(events.take(upto)).len() == full_batches(
            forwarder.pending,
            events,
            upto,
        ),
    decreases upto,
{
    if upto > 0 {
        let at = upto - 1;
        lemma_number_of_deliveries(forwarder, events, at);
        law_pending_is_what_came_since_the_checkpoint(forwarder, events, at);
        let taken = events.take(upto);
        assert(taken.drop_last() =~= events.take(at));
        assert(taken.last() == events[at]);
        let held = forwarder.after_all(events.take(at));
        match events[at] {
            EventView::Checkpoint(checkpoint) => {
                law_checkpoint_settles_what_is_pending(held, checkpoint);
            },
            EventView::Data(bytes) => {
                law_data_is_held_back(held, bytes);
            },
        }
    }
}

/// Once Kafka has acknowledged a delivery, its offset is what the store gives back for its stream.
/// The offsets of other streams, and the place of the store, stay.
pub proof fn law_acknowledged_offset_is_kept(
    store: StoreView,
    delivery: DeliveryView,
    other: Seq<char>,
)
    ensures
        ({
            let kept = store.acknowledged(delivery);
            &&& kept.streams.contains_key(delivery.record.stream_path)
            &&& kept.streams[delivery.record.stream_path] == delivery.offset.text()
            &&& kept.loaded(delivery.record.stream_path) matches Some(offset) && offset.text()
                == delivery.offset.text()
            &&& other != delivery.record.stream_path ==> kept.loaded(other) == store.loaded(other)
                && (kept.streams.contains_key(other) <==> store.streams.contains_key(other))
            &&& kept.path == store.path
        }),
{
    law_offset_preserves_text(delivery.offset.text());
}

/// A stream is forwarded from where the store left off, and where it says nothing of the stream
/// from the offset that the stream is to start at. Its subscription asks for exactly that offset.
pub proof fn law_forwarding_resumes(
    store: StoreView,
    stream: RuntimeView,
    handle: StreamView,
)
    ensures
        ({
            let offset = resume_offset(store, stream);
            let subscription = SubscriptionView::initial(handle, offset);
            &&& store.streams.contains_key(stream.path) ==> offset.text()
                == store.streams[stream.path]
            &&& !store.streams.contains_key(stream.path) ==> offset == stream.start_offset
            &&& subscription.offset == offset
            &&& crate::stream::subscribe_query(subscription.offset)[0] == (
                "offset"@,
                offset.text(),
            )
            &&& subscription.stream == handle
        }),
{
    if store.streams.contains_key(stream.path) {
        law_offset_preserves_text(store.streams[stream.path]);
    }
}

/// A stream of the configuration is forwarded under its own path, to its topic.
pub proof fn law_runtime_of(
    config: StreamConfig,
    targets: Map<Seq<char>, TargetConfig>,
    topic_mapping: TopicMappingConfig,
)
    ensures
        ({
            let runtime = runtime_of(config, targets, topic_mapping);
            &&& runtime.path == config.path@
            &&& runtime.topic == resolved_topic(
                config.path@,
                opt_view(config.topic),
                opt_view(config.target),
                targets,
                opt_view(topic_mapping.default_topic),
            )
            &&& crate::laws::config::denotes(config.offset, runtime.start_offset)
        }),
{
    crate::laws::config::law_configured_offset(config.offset);
}

} // verus!
