//! What holds of the discovery of streams.
use crate::bindings::{json_document, JsonTree};
use crate::bridge::{resume_offset, RuntimeView};
use crate::config::DiscoveryConfig;
use crate::discovery::{
    active_after, active_after_all, active_after_payload, all_discovered, announced_stream,
    announces, at_keys, at_path, discovered, discovered_topic, events_in, failure_of, found_in,
    named_path, named_paths, resolved_path, sanitized, spawns, DiscoveryView, WatchEvent,
    WatcherView,
};
use crate::error::ErrorView;
use crate::laws::config::{absolute, denotes, law_configured_offset};
use crate::laws::text::{
    law_first_occurrence_is_replaced, law_nothing_to_replace, law_nothing_to_split,
    law_split_at_a_separator, stands_nowhere,
};
use crate::offset_store::StoreView;
use crate::stream::{subscribe_query, StreamView, SubscriptionView};
use crate::text::{opt_view, replaced, split_on, without_outer_slashes};
use crate::topic::{derived_topic, topic_text};
use crate::types::subscription::EventView;
use vstd::prelude::*;
use vstd::string::*;

verus! {

/// The empty path leads to the value itself, a key to the member of an object, and a path behind a
/// key on from that member. Where there is no such member it leads nowhere.
pub proof fn law_dotted_paths(tree: JsonTree, key: Seq<char>, rest: Seq<char>)
    requires
        !key.contains('.'),
    ensures
        at_path(tree, Seq::empty()) == Some(tree),
        key.len() > 0 ==> at_path(tree, key) == member_of(tree, key),
        member_of(tree, key) is None ==> at_path(tree, key + seq!['.'] + rest) is None,
        member_of(tree, key) is Some && rest.len() == 0 ==> at_path(tree, key + seq!['.'] + rest)
            == member_of(member_of(tree, key)->0, rest),
        member_of(tree, key) is Some && rest.len() > 0 ==> at_path(tree, key + seq!['.'] + rest)
            == at_path(member_of(tree, key)->0, rest),
{
    law_nothing_to_split(key, '.');
    let keys = seq![key];
    assert(keys.skip(1) =~= Seq::empty());
    assert(at_keys(tree, keys) == match tree.member(key) {
        Some(member) => at_keys(member, keys.skip(1)),
        None => None,
    });
    let path = key + seq!['.'] + rest;
    law_split_at_a_separator(key, rest, '.');
    let all = seq![key] + split_on(rest, '.');
    assert(all.skip(1) =~= split_on(rest, '.'));
    assert(all[0] == key);
    assert(at_path(tree, path) == at_keys(tree, all));
    if rest.len() == 0 {
        assert(rest =~= Seq::empty());
        let last = seq![rest];
        assert(split_on(rest, '.') == last);
        assert(last.skip(1) =~= Seq::empty());
        if let Some(member) = member_of(tree, key) {
            assert(at_keys(member, last) == match member.member(rest) {
                Some(inner) => at_keys(inner, last.skip(1)),
                None => None,
            });
        }
    }
}

/// The member of an object that has the key, if there is one.
pub open spec fn member_of(tree: JsonTree, key: Seq<char>) -> Option<JsonTree> {
    if tree is Object && tree->Object_0.contains_key(key) {
        Some(tree->Object_0[key])
    } else {
        None
    }
}

/// A prefix stands before the path that is extracted; without one the path is as it is.
pub proof fn law_resolved_path(extracted: Seq<char>, prefix: Seq<char>)
    ensures
        resolved_path(extracted, None) == extracted,
        resolved_path(extracted, Some(prefix)) == prefix + extracted,
{
}

/// The topic of an announced stream is derived from its path where there is no template. With one
/// it is the template with the path in each place for it, without slashes around it and in the
/// characters of a topic.
pub proof fn law_discovered_topic(
    path: Seq<char>,
    before: Seq<char>,
    behind: Seq<char>,
)
    ensures
        discovered_topic(path, None) == derived_topic(path),
        discovered_topic(path, Some(before)) == topic_text(
            without_outer_slashes(replaced(before, "{path}"@, path)),
        ),
        stands_nowhere(before, "{path}"@) ==> discovered_topic(path, Some(before)) == topic_text(
            without_outer_slashes(before),
        ),
        (forall|i: int|
            0 <= i < before.len() ==> #[trigger] (before + "{path}"@ + behind).subrange(i, i + 6)
                != "{path}"@) && stands_nowhere(behind, "{path}"@) ==> discovered_topic(
            path,
            Some(before + "{path}"@ + behind),
        ) == topic_text(without_outer_slashes(before + path + behind)),
        sanitized(before) == topic_text(without_outer_slashes(before)),
{
    reveal_strlit("{path}");
    let place = "{path}"@;
    assert(place.len() == 6);
    if stands_nowhere(before, place) {
        law_nothing_to_replace(before, place, path);
    }
    if (forall|i: int|
        0 <= i < before.len() ==> #[trigger] (before + place + behind).subrange(i, i + 6) != place)
        && stands_nowhere(behind, place) {
        assert forall|i: int| 0 <= i < before.len() implies #[trigger] (before + place
            + behind).subrange(i, i + place.len()) != place by {
            assert((before + place + behind).subrange(i, i + 6) != place);
        }
        law_first_occurrence_is_replaced(before, place, behind, path);
        law_nothing_to_replace(behind, place, path);
    }
}

/// Without a filter every event announces a stream. With one an event does exactly where the field
/// holds the expected text.
pub proof fn law_filter(event: JsonTree, config: DiscoveryConfig)
    ensures
        config.filter_field is None || config.filter_value is None ==> announces(event, config),
        config.filter_field is Some && config.filter_value is Some ==> (announces(event, config)
            <==> at_path(event, config.filter_field->0@) == Some(
            JsonTree::Text(config.filter_value->0@),
        )),
{
}

/// An event names a stream exactly where the field holds a text, which stands behind the prefix,
/// if there is one.
pub proof fn law_named_path(event: JsonTree, config: DiscoveryConfig)
    ensures
        match at_path(event, config.path_field@) {
            Some(JsonTree::Text(text)) => named_path(event, config) == Some(
                if config.path_prefix is Some {
                    config.path_prefix->0@ + text
                } else {
                    text
                },
            ),
            _ => named_path(event, config) is None,
        },
{
}

/// The events of a document are the items of an array, in order; anything else is one event.
pub proof fn law_events_in(document: JsonTree)
    ensures
        document matches JsonTree::Array(items) ==> events_in(document) == items,
        !(document is Array) ==> events_in(document) == seq![document],
{
}

/// Whether the event announces the stream at the path: it passes the filter and names the path,
/// which is absolute.
pub open spec fn announces_path(event: JsonTree, config: DiscoveryConfig, path: Seq<char>) -> bool {
    announces(event, config) && named_path(event, config) == Some(path) && absolute(path)
}

/// A stream is to be forwarded exactly where an event announces it and it is not forwarded yet. It
/// starts at the offset that its discovery block configures, and goes to its topic. Other events
/// are told apart by what is wrong with them.
pub proof fn law_announced_streams_are_forwarded(
    event: JsonTree,
    config: DiscoveryConfig,
    active: Set<Seq<char>>,
    path: Seq<char>,
)
    ensures
        ({
            let discovery = discovered(event, config, active);
            &&& announces_path(event, config, path) && !active.contains(path) ==> (
            discovery matches DiscoveryView::Spawn(stream) && stream.path == path && denotes(
                config.default_offset,
                stream.start_offset,
            ) && stream.topic == discovered_topic(path, opt_view(config.topic_template)))
            &&& announces_path(event, config, path) && active.contains(path)
                ==> discovery is AlreadyActive
            &&& discovery matches DiscoveryView::Spawn(stream) ==> announces_path(
                event,
                config,
                stream.path,
            ) && !active.contains(stream.path)
            &&& !announces(event, config) ==> discovery is Filtered
            &&& announces(event, config) && named_path(event, config) is None
                ==> discovery is MissingPath
            &&& announces(event, config) && named_path(event, config) == Some(path) && !absolute(
                path,
            ) ==> discovery == (DiscoveryView::InvalidPath {
                path,
                error: ErrorView::InvalidStreamPath {
                    path,
                    reason: if path.len() == 0 {
                        "path cannot be empty"@
                    } else {
                        "path must start with `/`"@
                    },
                },
            })
        }),
{
    law_configured_offset(config.default_offset);
}

/// An announced stream for which no offset is kept is read from the offset that its discovery
/// block configures: its subscription asks for the text of exactly that offset.
pub proof fn law_announced_streams_start_where_configured(
    event: JsonTree,
    config: DiscoveryConfig,
    active: Set<Seq<char>>,
    store: StoreView,
    handle: StreamView,
    stream: RuntimeView,
)
    requires
        discovered(event, config, active) == DiscoveryView::Spawn(stream),
        !store.streams.contains_key(stream.path),
    ensures
        ({
            let offset = SubscriptionView::initial(handle, resume_offset(store, stream)).offset;
            &&& denotes(config.default_offset, offset)
            &&& subscribe_query(offset)[0] == ("offset"@, offset.text())
            &&& config.default_offset is None ==> subscribe_query(offset)[0].1 == "-1"@
            &&& config.default_offset matches Some(text) ==> subscribe_query(offset)[0].1 == if text@
                == "start"@ {
                "-1"@
            } else {
                text@
            }
        }),
{
    law_announced_streams_are_forwarded(event, config, active, stream.path);
}

/// The stream that is announced at a path.
pub proof fn law_announced_stream(path: Seq<char>, config: DiscoveryConfig)
    ensures
        announced_stream(path, config).path == path,
        announced_stream(path, config).topic == discovered_topic(
            path,
            opt_view(config.topic_template),
        ),
        denotes(config.default_offset, announced_stream(path, config).start_offset),
{
    law_configured_offset(config.default_offset);
}

proof fn lemma_lengths(events: Seq<JsonTree>, config: DiscoveryConfig, active: Set<Seq<char>>)
    ensures
        all_discovered(events, config, active).len() == events.len(),
    decreases events.len(),
{
    if events.len() > 0 {
        lemma_lengths(events.drop_last(), config, active);
    }
}

/// Each event of a document is dealt with, in order, and each after those before it have had
/// their effect.
pub proof fn law_events_are_dealt_with_in_order(
    events: Seq<JsonTree>,
    config: DiscoveryConfig,
    active: Set<Seq<char>>,
    i: int,
)
    requires
        0 <= i < events.len(),
    ensures
        all_discovered(events, config, active).len() == events.len(),
        all_discovered(events, config, active)[i] == discovered(
            events[i],
            config,
            active_after_all(events.take(i), config, active),
        ),
        active_after_all(Seq::empty(), config, active) == active,
    decreases events.len(),
{
    let before = events.drop_last();
    lemma_lengths(events, config, active);
    lemma_lengths(before, config, active);
    if i < before.len() {
        law_events_are_dealt_with_in_order(before, config, active, i);
        assert(before.take(i) =~= events.take(i));
    } else {
        assert(before =~= events.take(i));
    }
}

/// After the events exactly those streams are forwarded that were before, or that one of the
/// events started.
pub proof fn law_streams_that_are_forwarded_afterwards(
    events: Seq<JsonTree>,
    config: DiscoveryConfig,
    active: Set<Seq<char>>,
    path: Seq<char>,
)
    ensures
        active_after_all(events, config, active).contains(path) <==> active.contains(path) || exists|
            i: int,
        |
            0 <= i < events.len() && spawns(#[trigger] all_discovered(events, config, active)[i], path),
    decreases events.len(),
{
    let all = all_discovered(events, config, active);
    lemma_lengths(events, config, active);
    if events.len() > 0 {
        let rest = events.drop_last();
        let before = all_discovered(rest, config, active);
        lemma_lengths(rest, config, active);
        law_streams_that_are_forwarded_afterwards(rest, config, active, path);
        assert(forall|i: int| 0 <= i < rest.len() ==> #[trigger] all[i] == before[i]);
        let last = all[events.len() - 1];
        let held = active_after_all(rest, config, active);
        assert(last == discovered(events.last(), config, held));
        if active_after_all(events, config, active).contains(path) && !active.contains(path) {
            if held.contains(path) {
                let i = choose|i: int| 0 <= i < rest.len() && spawns(#[trigger] before[i], path);
                assert(spawns(all[i], path));
            } else {
                assert(spawns(all[events.len() - 1], path));
            }
        }
        if exists|i: int| 0 <= i < events.len() && spawns(#[trigger] all[i], path) {
            let i = choose|i: int| 0 <= i < events.len() && spawns(#[trigger] all[i], path);
            if i < rest.len() {
                assert(spawns(before[i], path));
            }
        }
    }
}

/// An event that starts a stream makes it one that is forwarded, and no other event does.
pub proof fn law_effect_of_one_event(
    active: Set<Seq<char>>,
    discovery: DiscoveryView,
    path: Seq<char>,
)
    ensures
        active_after(active, discovery).contains(path) <==> active.contains(path) || spawns(
            discovery,
            path,
        ),
{
}

/// The paths that events name are those of the events that announce a stream and name one, in
/// order.
pub proof fn law_named_paths(events: Seq<JsonTree>, event: JsonTree, config: DiscoveryConfig)
    ensures
        named_paths(Seq::empty(), config) == Seq::<Seq<char>>::empty(),
        announces(event, config) && named_path(event, config) is Some ==> named_paths(
            events.push(event),
            config,
        ) == named_paths(events, config).push(named_path(event, config)->0),
        !announces(event, config) || named_path(event, config) is None ==> named_paths(
            events.push(event),
            config,
        ) == named_paths(events, config),
{
    assert(events.push(event).drop_last() =~= events);
}

/// An empty payload finds nothing, one that is no JSON document finds nothing and says why, and
/// neither starts a stream. Of a document all events are dealt with.
pub proof fn law_payloads(payload: Seq<u8>, config: DiscoveryConfig, active: Set<Seq<char>>)
    ensures
        payload.len() == 0 ==> found_in(payload, config, active) is None && active_after_payload(
            payload,
            config,
            active,
        ) == active,
        payload.len() > 0 ==> match json_document(payload) {
            Ok(document) => {
                &&& found_in(payload, config, active) == Some(
                    Ok::<Seq<DiscoveryView>, Seq<char>>(
                        all_discovered(events_in(document), config, active),
                    ),
                )
                &&& active_after_payload(payload, config, active) == active_after_all(
                    events_in(document),
                    config,
                    active,
                )
            },
            Err(message) => {
                &&& found_in(payload, config, active) == Some(
                    Err::<Seq<DiscoveryView>, Seq<char>>(message),
                )
                &&& active_after_payload(payload, config, active) == active
            },
        },
{
}

/// A control stream is read as any other: data is held back behind what is pending, and every
/// checkpoint, whatever it says, leaves nothing pending.
pub proof fn law_control_stream_is_read_in_batches(watcher: WatcherView, event: EventView)
    ensures
        watcher.after(event).config == watcher.config,
        event matches EventView::Data(bytes) ==> watcher.after(event).pending == watcher.pending
            + bytes,
        event is Checkpoint ==> watcher.after(event).pending.len() == 0,
{
}

/// Of all that can happen to a control stream only a failed subscription ends discovery with a
/// failure, which is that of the subscription.
pub proof fn law_failure_of(event: WatchEvent)
    ensures
        event matches WatchEvent::Failed(error) ==> failure_of(event) == Some(
            crate::bridge::BridgeError::Client(error),
        ),
        event is Received || event is Kept || event is Ended ==> failure_of(event) is None,
{
}

} // verus!
