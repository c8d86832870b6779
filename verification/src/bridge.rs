//! Forwarding of one stream into Kafka.
use crate::client::DurableStreamsClient;
use crate::config::{configured_offset, StreamConfig, TargetConfig, TopicMappingConfig};
use crate::error::Error;
use crate::kafka::{BridgeRecord, RecordView, SinkError};
use crate::laws::bridge::{
    law_bare_checkpoints_change_nothing, law_checkpoint_settles_what_is_pending, publishes,
};
use crate::offset_store::{
    replace_file, step_views, OffsetStore, OffsetStoreError, SaveStep, SaveStepView, StoreView,
};
use crate::stream::{StreamView, Subscription, SubscriptionView};
use crate::text::{concat3, opt_view};
use crate::text_map::TextMap;
use crate::topic::{message_key, record_key, resolve_topic, resolved_topic, TopicResolutionContext};
use crate::types::offset::{law_offset_preserves_text, Offset, OffsetView};
use crate::types::stream_path::path_outcome;
use crate::types::subscription::{
    CheckpointView, EventView, StreamCheckpoint, SubscribeRequest, SubscriptionEvent,
};
use vstd::prelude::*;
use vstd::string::*;

verus! {

/// A stream that is forwarded: where its records go, and where to start where no offset has been
/// kept.
#[derive(Debug, PartialEq, Eq)]
pub struct StreamRuntime {
    pub path: String,
    pub topic: String,
    pub start_offset: Offset,
}

/// What a [`StreamRuntime`] stands for.
pub ghost struct RuntimeView {
    pub path: Seq<char>,
    pub topic: Seq<char>,
    pub start_offset: OffsetView,
}

impl View for StreamRuntime {
    type V = RuntimeView;

    open spec fn view(&self) -> RuntimeView {
        RuntimeView { path: self.path@, topic: self.topic@, start_offset: self.start_offset@ }
    }
}

impl Clone for StreamRuntime {
    fn clone(&self) -> (r: StreamRuntime)
        ensures
            r == *self,
    {
        StreamRuntime {
            path: self.path.clone(),
            topic: self.topic.clone(),
            start_offset: self.start_offset.clone(),
        }
    }
}

/// The stream of the configuration, with its topic resolved.
pub open spec fn runtime_of(
    config: StreamConfig,
    targets: Map<Seq<char>, TargetConfig>,
    topic_mapping: TopicMappingConfig,
) -> RuntimeView {
    RuntimeView {
        path: config.path@,
        topic: resolved_topic(
            config.path@,
            opt_view(config.topic),
            opt_view(config.target),
            targets,
            opt_view(topic_mapping.default_topic),
        ),
        start_offset: configured_offset(config.offset),
    }
}

impl StreamRuntime {
    /// The stream of the configuration, with its topic resolved.
    #[must_use]
    pub fn from_config(
        config: &StreamConfig,
        targets: &TextMap<TargetConfig>,
        topic_mapping: &TopicMappingConfig,
    ) -> (r: StreamRuntime)
        ensures
            r@ == runtime_of(*config, targets@, *topic_mapping),
    {
        let context = TopicResolutionContext {
            explicit_topic: match &config.topic {
                Some(topic) => Some(topic.as_str()),
                None => None,
            },
            target: match &config.target {
                Some(target) => Some(target.as_str()),
                None => None,
            },
            targets,
            topic_mapping,
        };
        StreamRuntime {
            path: config.path.clone(),
            topic: resolve_topic(config.path.as_str(), &context),
            start_offset: config.start_offset(),
        }
    }
}

/// What can go wrong while a stream is forwarded.
#[derive(Debug)]
pub enum BridgeError {
    Client(Error),
    Sink(SinkError),
    OffsetStore(OffsetStoreError),
    UnexpectedSequence { stream_path: String, reason: String },
}

impl BridgeError {
    /// The failure in words.
    pub open spec fn text(self) -> Seq<char> {
        match self {
            BridgeError::Client(error) => error@.message(),
            BridgeError::Sink(error) => error.text(),
            BridgeError::OffsetStore(error) => error@.message(),
            BridgeError::UnexpectedSequence { stream_path, reason } => {
                "unexpected event sequence for `"@ + stream_path@ + "`: "@ + reason@
            },
        }
    }

    /// The failure in words.
    pub fn message(&self) -> (r: String)
        ensures
            r@ == self.text(),
    {
        match self {
            BridgeError::Client(error) => error.message(),
            BridgeError::Sink(error) => error.message(),
            BridgeError::OffsetStore(error) => error.message(),
            BridgeError::UnexpectedSequence { stream_path, reason } => {
                let mut text = concat3(
                    "unexpected event sequence for `",
                    stream_path.as_str(),
                    "`: ",
                );
                text.append(reason.as_str());
                text
            },
        }
    }
}

/// A record on its way to Kafka, and the offset to keep once Kafka has acknowledged it.
#[derive(Debug)]
pub struct Delivery {
    record: BridgeRecord,
    offset: Offset,
}

/// What a [`Delivery`] stands for.
pub ghost struct DeliveryView {
    pub record: RecordView,
    pub offset: OffsetView,
}

impl View for Delivery {
    type V = DeliveryView;

    closed spec fn view(&self) -> DeliveryView {
        DeliveryView { record: self.record@, offset: self.offset@ }
    }
}

/// The delivery of `payload`, which ends at `next_offset`.
pub open spec fn delivery_of(stream: RuntimeView, next_offset: OffsetView, payload: Seq<u8>) -> DeliveryView {
    DeliveryView {
        record: RecordView {
            topic: stream.topic,
            key: record_key(stream.path, next_offset),
            payload,
            stream_path: stream.path,
            next_offset: next_offset.text(),
        },
        offset: next_offset,
    }
}

impl StoreView {
    /// The store once Kafka has acknowledged the delivery.
    pub open spec fn acknowledged(self, delivery: DeliveryView) -> StoreView {
        self.saved(delivery.record.stream_path, delivery.offset)
    }

    /// The store once Kafka has acknowledged the deliveries, one after the other.
    pub open spec fn all_acknowledged(self, deliveries: Seq<DeliveryView>) -> StoreView
        decreases deliveries.len(),
    {
        if deliveries.len() == 0 {
            self
        } else {
            self.all_acknowledged(deliveries.drop_last()).acknowledged(deliveries.last())
        }
    }
}

impl Delivery {
    /// The record to publish.
    pub fn record(&self) -> (r: &BridgeRecord)
        ensures
            r@ == self@.record,
    {
        &self.record
    }

    /// Takes the answer of Kafka to the record. Once Kafka has acknowledged it, its offset is
    /// kept, and the steps make the file of the store keep it too. A record that is refused ends
    /// the forwarding of its stream, and the store stays as it is.
    pub fn settled(self, outcome: Result<(), SinkError>, store: &mut OffsetStore) -> (r: Result<
        Vec<SaveStep>,
        BridgeError,
    >)
        ensures
            match outcome {
                Ok(_) => {
                    &&& r is Ok
                    &&& final(store)@ == old(store)@.acknowledged(self@)
                    &&& replace_file(step_views(r->Ok_0@), old(store)@.path)
                },
                Err(error) => {
                    &&& r is Err
                    &&& r->Err_0 == BridgeError::Sink(error)
                    &&& final(store)@ == old(store)@
                },
            },
    {
        match outcome {
            Ok(()) => Ok(store.save(self.record.stream_path.as_str(), &self.offset)),
            Err(error) => Err(BridgeError::Sink(error)),
        }
    }
}

/// The delivery that a checkpoint calls for: that of the data before it, if there is any. The
/// offset of the checkpoint is kept once the delivery is settled.
pub fn handle_checkpoint(
    stream: &StreamRuntime,
    checkpoint: &StreamCheckpoint,
    pending_payload: Vec<u8>,
) -> (r: Option<Delivery>)
    ensures
        (match r {
            Some(delivery) => Some(delivery@),
            None => None,
        }) == if pending_payload@.len() > 0 {
            Some(delivery_of(stream@, checkpoint@.next_offset, pending_payload@))
        } else {
            None
        },
{
    if pending_payload.len() == 0 {
        return None;
    }
    let record = BridgeRecord {
        topic: stream.topic.clone(),
        key: message_key(stream.path.as_str(), &checkpoint.next_offset),
        payload: pending_payload,
        stream_path: stream.path.clone(),
        next_offset: checkpoint.next_offset.as_str().to_owned(),
    };
    Some(Delivery { record, offset: checkpoint.next_offset.clone() })
}

/// Turns the events of one stream into deliveries: it holds data back until a checkpoint comes.
#[derive(Debug)]
pub struct Forwarder {
    stream: StreamRuntime,
    pending_payload: Vec<u8>,
}

/// What a [`Forwarder`] stands for.
#[verifier::ext_equal]
pub ghost struct ForwarderView {
    pub stream: RuntimeView,
    pub pending: Seq<u8>,
}

impl View for Forwarder {
    type V = ForwarderView;

    closed spec fn view(&self) -> ForwarderView {
        ForwarderView { stream: self.stream@, pending: self.pending_payload@ }
    }
}

impl ForwarderView {
    /// The forwarder after the event.
    pub open spec fn after(self, event: EventView) -> ForwarderView {
        match event {
            EventView::Data(bytes) => ForwarderView { pending: self.pending + bytes, ..self },
            EventView::Checkpoint(_) => ForwarderView { pending: Seq::empty(), ..self },
        }
    }

    /// The delivery that the event calls for, if it does.
    pub open spec fn delivery(self, event: EventView) -> Option<DeliveryView> {
        match event {
            EventView::Data(_) => None,
            EventView::Checkpoint(checkpoint) => if self.pending.len() > 0 {
                Some(delivery_of(self.stream, checkpoint.next_offset, self.pending))
            } else {
                None
            },
        }
    }

    /// The forwarder after the events.
    pub open spec fn after_all(self, events: Seq<EventView>) -> ForwarderView
        decreases events.len(),
    {
        if events.len() == 0 {
            self
        } else {
            self.after_all(events.drop_last()).after(events.last())
        }
    }

    /// The deliveries that the events call for, in order.
    pub open spec fn deliveries(self, events: Seq<EventView>) -> Seq<DeliveryView>
        decreases events.len(),
    {
        if events.len() == 0 {
            Seq::empty()
        } else {
            let earlier = self.deliveries(events.drop_last());
            match self.after_all(events.drop_last()).delivery(events.last()) {
                Some(delivery) => earlier.push(delivery),
                None => earlier,
            }
        }
    }
}

/// The bytes of the data events, in order.
pub open spec fn data_of(events: Seq<EventView>) -> Seq<u8>
    decreases events.len(),
{
    if events.len() == 0 {
        Seq::empty()
    } else {
        match events.last() {
            EventView::Data(bytes) => data_of(events.drop_last()) + bytes,
            EventView::Checkpoint(_) => data_of(events.drop_last()),
        }
    }
}

/// The payloads of the deliveries, in order.
pub open spec fn payload_of(deliveries: Seq<DeliveryView>) -> Seq<u8>
    decreases deliveries.len(),
{
    if deliveries.len() == 0 {
        Seq::empty()
    } else {
        payload_of(deliveries.drop_last()) + deliveries.last().record.payload
    }
}

/// Where to start to read the stream: where the store left off, or else at its start offset.
pub open spec fn resume_offset(store: StoreView, stream: RuntimeView) -> OffsetView {
    match store.loaded(stream.path) {
        Some(offset) => offset,
        None => stream.start_offset,
    }
}

/// Starts to forward the stream: the forwarder takes the events that the subscription delivers.
pub fn run_stream(client: &DurableStreamsClient, stream: StreamRuntime, store: &OffsetStore) -> (r:
    Result<(Forwarder, Subscription), BridgeError>)
    ensures
        match path_outcome(stream@.path) {
            Ok(path) => r is Ok && r->Ok_0.0@ == (ForwarderView {
                stream: stream@,
                pending: Seq::empty(),
            }) && r->Ok_0.1@ == SubscriptionView::initial(
                StreamView { transport: client@, path },
                resume_offset(store@, stream@),
            ),
            Err(error) => r matches Err(BridgeError::Client(e)) && e@ == error,
        },
{
    let durable_stream = match client.stream(stream.path.as_str()) {
        Ok(durable_stream) => durable_stream,
        Err(error) => {
            return Err(BridgeError::Client(error));
        },
    };
    let offset = match store.load(stream.path.as_str()) {
        Some(offset) => offset,
        None => stream.start_offset.clone(),
    };
    let subscription = durable_stream.subscribe(SubscribeRequest { offset });
    let forwarder = Forwarder { stream, pending_payload: Vec::new() };
    assert(forwarder@ =~= ForwarderView { stream: stream@, pending: Seq::empty() });
    Ok((forwarder, subscription))
}

impl Forwarder {
    /// A forwarder of the stream that has not seen any event.
    pub fn new(stream: StreamRuntime) -> (r: Forwarder)
        ensures
            r@ == (ForwarderView { stream: stream@, pending: Seq::empty() }),
    {
        let r = Forwarder { stream, pending_payload: Vec::new() };
        assert(r@ =~= ForwarderView { stream: stream@, pending: Seq::empty() });
        r
    }

    /// Takes in what the subscription gives. Where an event calls for a delivery, the forwarder
    /// comes back only once that is settled and its offset kept.
    pub fn event(self, event: Result<SubscriptionEvent, Error>) -> (r: Result<
        Forwarding,
        BridgeError,
    >)
        ensures
            match event {
                Ok(event) => r is Ok && match self@.delivery(event@) {
                    Some(delivery) => r->Ok_0 matches Forwarding::Sending(sending) && sending@ == (
                    SendingView { forwarder: self@.after(event@), delivery }),
                    None => r->Ok_0 matches Forwarding::Reading(forwarder) && forwarder@
                        == self@.after(event@),
                },
                Err(error) => r is Err && r->Err_0 == BridgeError::Client(error),
            },
            event matches Ok(SubscriptionEvent::Data(bytes)) ==> r->Ok_0 is Reading
                && r->Ok_0->Reading_0@.pending == self@.pending + bytes@,
            event matches Ok(SubscriptionEvent::Checkpoint(checkpoint)) ==> if self@.pending.len()
                > 0 {
                &&& r->Ok_0 is Sending
                &&& r->Ok_0->Sending_0@.forwarder.pending.len() == 0
                &&& publishes(
                    r->Ok_0->Sending_0@.delivery,
                    self@.stream,
                    self@.pending,
                    checkpoint.next_offset@,
                )
            } else {
                r->Ok_0 is Reading && r->Ok_0->Reading_0@ == self@
            },
    {
        let event = match event {
            Ok(event) => event,
            Err(error) => {
                return Err(BridgeError::Client(error));
            },
        };
        let Forwarder { stream, mut pending_payload } = self;
        match event {
            SubscriptionEvent::Data(bytes) => {
                pending_payload.extend_from_slice(bytes.as_slice());
                let forwarder = Forwarder { stream, pending_payload };
                assert(forwarder@ =~= self@.after(event@));
                Ok(Forwarding::Reading(forwarder))
            },
            SubscriptionEvent::Checkpoint(checkpoint) => {
                proof {
                    law_checkpoint_settles_what_is_pending(self@, checkpoint@);
                    law_bare_checkpoints_change_nothing(self@, checkpoint@);
                }
                let delivery = handle_checkpoint(&stream, &checkpoint, pending_payload);
                let forwarder = Forwarder { stream, pending_payload: Vec::new() };
                assert(forwarder@ =~= self@.after(event@));
                match delivery {
                    Some(delivery) => Ok(Forwarding::Sending(Sending { forwarder, delivery })),
                    None => Ok(Forwarding::Reading(forwarder)),
                }
            },
        }
    }

    /// Takes note of the end of the stream, which must not leave data without a checkpoint.
    pub fn ended(&self) -> (r: Result<(), BridgeError>)
        ensures
            self@.pending.len() == 0 ==> r is Ok,
            self@.pending.len() > 0 ==> (r matches Err(
                BridgeError::UnexpectedSequence { stream_path, reason },
            ) && stream_path@ == self@.stream.path && reason@
                == "stream ended with buffered data that never received a checkpoint"@),
    {
        if self.pending_payload.len() > 0 {
            return Err(
                BridgeError::UnexpectedSequence {
                    stream_path: self.stream.path.clone(),
                    reason: "stream ended with buffered data that never received a checkpoint".to_owned(),
                },
            );
        }
        Ok(())
    }
}

/// What a forwarder does next.
#[derive(Debug)]
pub enum Forwarding {
    /// Take in what comes next.
    Reading(Forwarder),
    /// Wait for the answer of Kafka.
    Sending(Sending),
}

/// A forwarder that waits for the answer of Kafka to a delivery.
#[derive(Debug)]
pub struct Sending {
    forwarder: Forwarder,
    delivery: Delivery,
}

/// What a [`Sending`] stands for.
pub ghost struct SendingView {
    pub forwarder: ForwarderView,
    pub delivery: DeliveryView,
}

impl View for Sending {
    type V = SendingView;

    closed spec fn view(&self) -> SendingView {
        SendingView { forwarder: self.forwarder@, delivery: self.delivery@ }
    }
}

impl Sending {
    /// The record to publish.
    pub fn record(&self) -> (r: &BridgeRecord)
        ensures
            r@ == self@.delivery.record,
    {
        self.delivery.record()
    }

    /// Takes the answer of Kafka to the record: see [`Delivery::settled`].
    pub fn settled(self, outcome: Result<(), SinkError>, store: &mut OffsetStore) -> (r: Result<
        Keeping,
        BridgeError,
    >)
        ensures
            match outcome {
                Ok(_) => {
                    &&& r is Ok
                    &&& r->Ok_0@.forwarder == self@.forwarder
                    &&& replace_file(r->Ok_0@.steps, old(store)@.path)
                    &&& final(store)@ == old(store)@.acknowledged(self@.delivery)
                },
                Err(error) => {
                    &&& r is Err
                    &&& r->Err_0 == BridgeError::Sink(error)
                    &&& final(store)@ == old(store)@
                },
            },
    {
        match self.delivery.settled(outcome, store) {
            Ok(steps) => Ok(Keeping { forwarder: self.forwarder, steps }),
            Err(error) => Err(error),
        }
    }
}

/// A forwarder that waits until the file of the store keeps an offset.
#[derive(Debug)]
pub struct Keeping {
    forwarder: Forwarder,
    steps: Vec<SaveStep>,
}

/// What a [`Keeping`] stands for.
pub ghost struct KeepingView {
    pub forwarder: ForwarderView,
    pub steps: Seq<SaveStepView>,
}

impl View for Keeping {
    type V = KeepingView;

    closed spec fn view(&self) -> KeepingView {
        KeepingView { forwarder: self.forwarder@, steps: step_views(self.steps@) }
    }
}

impl Keeping {
    /// The steps that make the file keep the offset.
    pub fn steps(&self) -> (r: &Vec<SaveStep>)
        ensures
            step_views(r@) == self@.steps,
    {
        &self.steps
    }

    /// Takes what came of the steps. A failure ends the forwarding of the stream.
    pub fn kept(self, outcome: Result<(), OffsetStoreError>) -> (r: Result<Forwarder, BridgeError>)
        ensures
            match outcome {
                Ok(_) => r is Ok && r->Ok_0@ == self@.forwarder,
                Err(error) => r is Err && r->Err_0 == BridgeError::OffsetStore(error),
            },
    {
        match outcome {
            Ok(()) => Ok(self.forwarder),
            Err(error) => Err(BridgeError::OffsetStore(error)),
        }
    }
}

/// How far the forwarding of a stream has come: the forwarder, the store, the deliveries that
/// Kafka has acknowledged, and whether it has refused one.
pub ghost struct Progress {
    pub forwarder: ForwarderView,
    pub store: StoreView,
    pub acknowledged: Seq<DeliveryView>,
    pub refused: bool,
}

/// How far the forwarding comes on the events, where `answers` tells, for each event that calls
/// for a delivery, whether Kafka acknowledges it. A delivery that is refused is the last one.
pub open spec fn forwarded(
    forwarder: ForwarderView,
    store: StoreView,
    events: Seq<EventView>,
    answers: Seq<bool>,
) -> Progress
    decreases events.len(),
{
    if events.len() == 0 {
        Progress { forwarder, store, acknowledged: Seq::empty(), refused: false }
    } else {
        let before = forwarded(forwarder, store, events.drop_last(), answers);
        let after = before.forwarder.after(events.last());
        if before.refused {
            before
        } else {
            match before.forwarder.delivery(events.last()) {
                None => Progress { forwarder: after, ..before },
                Some(delivery) => if answers[events.len() - 1] {
                    Progress {
                        forwarder: after,
                        store: before.store.acknowledged(delivery),
                        acknowledged: before.acknowledged.push(delivery),
                        refused: false,
                    }
                } else {
                    Progress { refused: true, ..before }
                },
            }
        }
    }
}

/// No byte of a stream is lost, doubled or put out of order: what has been handed out and what is
/// still held back are, together, the data that came in.
pub proof fn law_no_byte_is_lost(forwarder: ForwarderView, events: Seq<EventView>)
    ensures
        payload_of(forwarder.deliveries(events)) + forwarder.after_all(events).pending
            == forwarder.pending + data_of(events),
    decreases events.len(),
{
    if events.len() == 0 {
        assert(payload_of(Seq::<DeliveryView>::empty()) + forwarder.pending =~= forwarder.pending
            + data_of(events));
    } else {
        let before = events.drop_last();
        law_no_byte_is_lost(forwarder, before);
        let held = forwarder.after_all(before);
        let handed = forwarder.deliveries(before);
        match events.last() {
            EventView::Data(bytes) => {
                assert(payload_of(handed) + (held.pending + bytes) =~= (payload_of(handed)
                    + held.pending) + bytes);
                assert((forwarder.pending + data_of(before)) + bytes =~= forwarder.pending + (
                data_of(before) + bytes));
            },
            EventView::Checkpoint(checkpoint) => {
                let all = forwarder.deliveries(events);
                if held.pending.len() > 0 {
                    assert(all.drop_last() =~= handed);
                    assert(payload_of(all) =~= payload_of(handed) + held.pending);
                } else {
                    assert(payload_of(handed) + held.pending =~= payload_of(handed));
                }
                assert(payload_of(all) + Seq::<u8>::empty() =~= payload_of(all));
            },
        }
    }
}

/// A delivery is made for data only; it goes to the topic of the stream, under a key made of the
/// path of the stream and the offset at which the data ends.
pub proof fn law_deliveries_are_keyed_by_offset(
    forwarder: ForwarderView,
    events: Seq<EventView>,
    i: int,
)
    requires
        0 <= i < forwarder.deliveries(events).len(),
    ensures
        ({
            let delivery = forwarder.deliveries(events)[i];
            &&& delivery.record.topic == forwarder.stream.topic
            &&& delivery.record.stream_path == forwarder.stream.path
            &&& delivery.record.key == record_key(forwarder.stream.path, delivery.offset)
            &&& delivery.record.next_offset == delivery.offset.text()
            &&& delivery.record.payload.len() > 0
        }),
    decreases events.len(),
{
    if events.len() > 0 {
        let earlier = forwarder.deliveries(events.drop_last());
        lemma_same_stream(forwarder, events.drop_last());
        if i < earlier.len() {
            law_deliveries_are_keyed_by_offset(forwarder, events.drop_last(), i);
        }
    }
}

proof fn lemma_same_stream(forwarder: ForwarderView, events: Seq<EventView>)
    ensures
        forwarder.after_all(events).stream == forwarder.stream,
    decreases events.len(),
{
    if events.len() > 0 {
        lemma_same_stream(forwarder, events.drop_last());
    }
}

/// An offset is kept only of records that Kafka has acknowledged: whatever Kafka answers, the
/// store holds what the acknowledged deliveries left in it. They are the first ones that the
/// events call for, and all of them where Kafka refuses none.
pub proof fn law_only_acknowledged_offsets_are_kept(
    forwarder: ForwarderView,
    store: StoreView,
    events: Seq<EventView>,
    answers: Seq<bool>,
)
    ensures
        ({
            let progress = forwarded(forwarder, store, events, answers);
            let deliveries = forwarder.deliveries(events);
            let count = progress.acknowledged.len();
            &&& progress.store == store.all_acknowledged(progress.acknowledged)
            &&& count <= deliveries.len()
            &&& progress.acknowledged == deliveries.take(count as int)
            &&& progress.refused ==> count < deliveries.len()
            &&& !progress.refused ==> progress.acknowledged == deliveries
            &&& !progress.refused ==> progress.forwarder == forwarder.after_all(events)
        }),
    decreases events.len(),
{
    let deliveries = forwarder.deliveries(events);
    if events.len() == 0 {
        assert(deliveries.take(0) =~= deliveries);
    } else {
        let events_before = events.drop_last();
        law_only_acknowledged_offsets_are_kept(forwarder, store, events_before, answers);
        let before = forwarded(forwarder, store, events_before, answers);
        let progress = forwarded(forwarder, store, events, answers);
        let earlier = forwarder.deliveries(events_before);
        let count = before.acknowledged.len() as int;
        assert(deliveries.take(earlier.len() as int) =~= earlier);
        assert(deliveries.take(count) =~= earlier.take(count));
        if !before.refused && progress.acknowledged.len() > count {
            assert(progress.acknowledged.drop_last() =~= before.acknowledged);
            assert(deliveries.take(count + 1) =~= deliveries);
        }
    }
}

/// Each record is delivered at least once. Where Kafka has acknowledged any record, the offset
/// that is kept for the stream is that of a checkpoint, and all data before that checkpoint has
/// been acknowledged, so that a restart from there leaves nothing out. Where it has acknowledged
/// none, the store is as it was.
pub proof fn law_kept_offset_covers_what_was_acknowledged(
    forwarder: ForwarderView,
    store: StoreView,
    events: Seq<EventView>,
    answers: Seq<bool>,
)
    ensures
        ({
            let progress = forwarded(forwarder, store, events, answers);
            &&& progress.acknowledged.len() == 0 ==> progress.store == store
            &&& progress.acknowledged.len() > 0 ==> progress.store.loaded(
                forwarder.stream.path,
            ) is Some && exists|at: int|
                {
                    &&& 0 <= at < events.len()
                    &&& #[trigger] events[at] matches EventView::Checkpoint(checkpoint)
                        && checkpoint.next_offset.text() == resume_offset(
                        progress.store,
                        forwarder.stream,
                    ).text()
                    &&& payload_of(progress.acknowledged) == forwarder.pending + data_of(
                        events.take(at + 1),
                    )
                }
        }),
    decreases events.len(),
{
    let progress = forwarded(forwarder, store, events, answers);
    if events.len() > 0 {
        let events_before = events.drop_last();
        let before = forwarded(forwarder, store, events_before, answers);
        law_kept_offset_covers_what_was_acknowledged(forwarder, store, events_before, answers);
        law_only_acknowledged_offsets_are_kept(forwarder, store, events_before, answers);
        law_only_acknowledged_offsets_are_kept(forwarder, store, events, answers);
        lemma_same_stream(forwarder, events_before);
        if progress.acknowledged.len() > before.acknowledged.len() {
            let at = events.len() - 1;
            law_no_byte_is_lost(forwarder, events);
            assert(payload_of(progress.acknowledged) + Seq::<u8>::empty() =~= payload_of(
                progress.acknowledged,
            ));
            assert(events.take(at + 1) =~= events);
            law_offset_preserves_text(progress.acknowledged.last().offset.text());
            assert(events[at] is Checkpoint);
        } else if progress.acknowledged.len() > 0 {
            assert(progress.acknowledged == before.acknowledged);
            let at = choose|at: int|
                {
                    &&& 0 <= at < events_before.len()
                    &&& #[trigger] events_before[at] matches EventView::Checkpoint(checkpoint)
                        && checkpoint.next_offset.text() == resume_offset(
                        before.store,
                        forwarder.stream,
                    ).text()
                    &&& payload_of(before.acknowledged) == forwarder.pending + data_of(
                        events_before.take(at + 1),
                    )
                };
            assert(events[at] == events_before[at]);
            assert(events.take(at + 1) =~= events_before.take(at + 1));
        }
    }
}

/// A stream is read from the offset that is kept for it, or else from the one that is configured,
/// or else from its start.
pub proof fn law_resume_precedence(
    store: StoreView,
    config: StreamConfig,
    targets: Map<Seq<char>, TargetConfig>,
    topic_mapping: TopicMappingConfig,
)
    ensures
        ({
            let kept = store.loaded(config.path@);
            let offset = resume_offset(store, runtime_of(config, targets, topic_mapping));
            &&& kept is Some ==> offset == kept->0
            &&& kept is None ==> offset == configured_offset(config.offset)
            &&& kept is None && config.offset is None ==> offset == OffsetView::Start
        }),
{
}

/// What is acknowledged for one stream does not touch the offsets of the others.
pub proof fn law_streams_are_kept_apart(
    forwarder: ForwarderView,
    events: Seq<EventView>,
    store: StoreView,
    other: Seq<char>,
)
    requires
        other != forwarder.stream.path,
    ensures
        store.all_acknowledged(forwarder.deliveries(events)).loaded(other) == store.loaded(other),
    decreases events.len(),
{
    if events.len() > 0 {
        let before = events.drop_last();
        law_streams_are_kept_apart(forwarder, before, store, other);
        lemma_same_stream(forwarder, before);
        let earlier = forwarder.deliveries(before);
        if let Some(delivery) = forwarder.after_all(before).delivery(events.last()) {
            assert(earlier.push(delivery).drop_last() =~= earlier);
        }
    }
}

/// A checkpoint with no data before it calls for nothing: no record is published, and no offset
/// is kept.
pub proof fn law_bare_checkpoints_are_skipped(forwarder: ForwarderView, checkpoint: CheckpointView)
    requires
        forwarder.pending.len() == 0,
    ensures
        forwarder.delivery(EventView::Checkpoint(checkpoint)) is None,
        forwarder.after(EventView::Checkpoint(checkpoint)) == forwarder,
{
    assert(forwarder.after(EventView::Checkpoint(checkpoint)) =~= forwarder);
}

} // verus!
