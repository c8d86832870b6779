//! Discovery of streams that a control stream announces.
use crate::bindings::{
    json_document, json_items, json_member, json_text, json_tree, parse_json, JsonTree,
};
use crate::bridge::{BridgeError, RuntimeView, StreamRuntime};
use crate::client::DurableStreamsClient;
use crate::config::{configured_offset, DiscoveryConfig};
use crate::error::{Error, ErrorView};
use crate::laws::config::{denotes, law_configured_offset};
use crate::laws::discovery::announces_path;
use crate::offset_store::{
    replace_file, step_views, OffsetStore, OffsetStoreError, SaveStep,
};
use crate::stream::{StreamView, Subscription, SubscriptionView};
use crate::text::{
    concat, opt_view, replace_text, replaced, same_text, split_on, split_text, trim_slashes, views,
    without_outer_slashes,
};
use crate::text_map::TextMap;
use crate::topic::{
    append_topic_text, default_topic_for_stream, derived_topic, law_derived_topic_is_allowed,
    law_topic_text, str_view, topic_chars_only, topic_text,
};
use crate::types::stream_path::{path_fault, path_outcome, StreamPath};
use crate::types::subscription::{EventView, SubscribeRequest, SubscriptionEvent};
use vstd::prelude::*;
use vstd::string::*;

verus! {

/// What the value holds at the end of the keys, one after the other, if it holds them.
pub open spec fn at_keys(tree: JsonTree, keys: Seq<Seq<char>>) -> Option<JsonTree>
    decreases keys.len(),
{
    if keys.len() == 0 {
        Some(tree)
    } else {
        match tree.member(keys[0]) {
            Some(member) => at_keys(member, keys.skip(1)),
            None => None,
        }
    }
}

/// What the value holds at the dotted path, if anything; the empty path is the value itself.
pub open spec fn at_path(tree: JsonTree, path: Seq<char>) -> Option<JsonTree> {
    if path.len() == 0 {
        Some(tree)
    } else {
        at_keys(tree, split_on(path, '.'))
    }
}

/// What the reference leads to, if there is one.
pub open spec fn tree_view(value: Option<&serde_json::Value>) -> Option<JsonTree> {
    match value {
        Some(v) => Some(json_tree(*v)),
        None => None,
    }
}

/// What the value holds at the dotted path, if anything; the empty path is the value itself.
pub fn get_dotted<'a>(value: &'a serde_json::Value, path: &str) -> (r: Option<
    &'a serde_json::Value,
>)
    ensures
        tree_view(r) == at_path(json_tree(*value), path@),
{
    if path.is_empty() {
        return Some(value);
    }
    let keys = split_text(path, '.');
    let ghost all = split_on(path@, '.');
    let mut current: &'a serde_json::Value = value;
    let mut i: usize = 0;
    assert(all.skip(0) =~= all);
    while i < keys.len()
        invariant
            i <= keys.len(),
            path@.len() > 0,
            all == split_on(path@, '.'),
            views(keys@) == all,
            at_keys(json_tree(*value), all) == at_keys(json_tree(*current), all.skip(i as int)),
        decreases keys.len() - i,
    {
        assert(all.skip(i as int).skip(1) =~= all.skip(i + 1));
        assert(all.skip(i as int)[0] == keys@[i as int]@);
        match json_member(current, keys[i].as_str()) {
            Some(member) => {
                current = member;
            },
            None => {
                return None;
            },
        }
        i += 1;
    }
    Some(current)
}

/// The path of an announced stream, behind the prefix, if there is one.
pub open spec fn resolved_path(extracted: Seq<char>, prefix: Option<Seq<char>>) -> Seq<char> {
    match prefix {
        Some(prefix) => prefix + extracted,
        None => extracted,
    }
}

/// The path of an announced stream, behind the prefix, if there is one.
#[must_use]
pub fn resolve_discovered_path(extracted: &str, prefix: Option<&str>) -> (r: String)
    ensures
        r@ == resolved_path(extracted@, str_view(prefix)),
{
    match prefix {
        Some(prefix) => concat(prefix, extracted),
        None => extracted.to_owned(),
    }
}

/// The text as the name of a topic: without slashes at either end, and with each character
/// replaced by the one that stands for it.
pub open spec fn sanitized(raw: Seq<char>) -> Seq<char> {
    topic_text(without_outer_slashes(raw))
}

/// The topic of an announced stream: the template with the path in it, or else the topic that is
/// derived from the path.
pub open spec fn discovered_topic(path: Seq<char>, template: Option<Seq<char>>) -> Seq<char> {
    match template {
        Some(template) => sanitized(replaced(template, "{path}"@, path)),
        None => derived_topic(path),
    }
}

/// The topic of an announced stream: the template with the path in it, or else the topic that is
/// derived from the path.
#[must_use]
pub fn topic_for_discovered_stream(path: &str, template: Option<&str>) -> (r: String)
    ensures
        r@ == discovered_topic(path@, str_view(template)),
{
    match template {
        Some(template) => {
            proof {
                reveal_strlit("{path}");
            }
            let filled = replace_text(template, "{path}", path);
            sanitize_topic(filled.as_str())
        },
        None => default_topic_for_stream(path),
    }
}

/// The text as the name of a topic: without slashes at either end, and with each character
/// replaced by the one that stands for it.
pub fn sanitize_topic(raw: &str) -> (r: String)
    ensures
        r@ == sanitized(raw@),
{
    let trimmed = trim_slashes(raw);
    let r = append_topic_text(String::new(), trimmed.as_str());
    assert(Seq::<char>::empty() + topic_text(trimmed@) =~= topic_text(trimmed@));
    r
}

/// Whether the event is one of those that announce streams.
pub open spec fn announces(event: JsonTree, config: DiscoveryConfig) -> bool {
    match (opt_view(config.filter_field), opt_view(config.filter_value)) {
        (Some(field), Some(expected)) => at_path(event, field) == Some(JsonTree::Text(expected)),
        _ => true,
    }
}

/// The path of the stream that the event names, if it names one.
pub open spec fn named_path(event: JsonTree, config: DiscoveryConfig) -> Option<Seq<char>> {
    match at_path(event, config.path_field@) {
        Some(JsonTree::Text(text)) => Some(resolved_path(text, opt_view(config.path_prefix))),
        _ => None,
    }
}

/// The events in a document: the items of an array, or else the document itself.
pub open spec fn events_in(document: JsonTree) -> Seq<JsonTree> {
    match document {
        JsonTree::Array(items) => items,
        other => seq![other],
    }
}

/// Whether the event is one of those that announce streams.
fn passes_filter(event: &serde_json::Value, config: &DiscoveryConfig) -> (r: bool)
    ensures
        r == announces(json_tree(*event), *config),
{
    if let Some(field) = &config.filter_field {
        if let Some(expected) = &config.filter_value {
            return match get_dotted(event, field.as_str()) {
                Some(actual) => match json_text(actual) {
                    Some(text) => same_text(text, expected.as_str()),
                    None => false,
                },
                None => false,
            };
        }
    }
    true
}

/// The path of the stream that the event names, if it names one.
fn path_in_event(event: &serde_json::Value, config: &DiscoveryConfig) -> (r: Option<String>)
    ensures
        opt_view(r) == named_path(json_tree(*event), *config),
{
    let prefix = match &config.path_prefix {
        Some(prefix) => Some(prefix.as_str()),
        None => None,
    };
    match get_dotted(event, config.path_field.as_str()) {
        Some(value) => match json_text(value) {
            Some(text) => Some(resolve_discovered_path(text, prefix)),
            None => None,
        },
        None => None,
    }
}

/// The streams that are forwarded already.
#[derive(Debug)]
pub struct ActivePaths {
    paths: TextMap<()>,
}

impl View for ActivePaths {
    type V = Set<Seq<char>>;

    closed spec fn view(&self) -> Set<Seq<char>> {
        self.paths@.dom()
    }
}

/// The paths of the streams.
pub open spec fn runtime_paths(runtimes: Seq<StreamRuntime>) -> Set<Seq<char>> {
    runtimes.map_values(|runtime: StreamRuntime| runtime.path@).to_set()
}

impl ActivePaths {
    /// No stream is forwarded.
    pub fn new() -> (r: ActivePaths)
        ensures
            r@ == Set::<Seq<char>>::empty(),
    {
        let r = ActivePaths { paths: TextMap::new() };
        assert(r@ =~= Set::empty());
        r
    }

    /// The given streams are forwarded.
    pub fn of(runtimes: &Vec<StreamRuntime>) -> (r: ActivePaths)
        ensures
            r@ == runtime_paths(runtimes@),
    {
        let mut active = ActivePaths::new();
        let ghost paths = runtimes@.map_values(|runtime: StreamRuntime| runtime.path@);
        let mut i: usize = 0;
        assert(paths.take(0).to_set() =~= Set::empty());
        while i < runtimes.len()
            invariant
                i <= runtimes.len(),
                paths == runtimes@.map_values(|runtime: StreamRuntime| runtime.path@),
                active@ == paths.take(i as int).to_set(),
            decreases runtimes.len() - i,
        {
            proof {
                lemma_set_of_one_more(paths, i as int);
            }
            active.insert(runtimes[i].path.clone());
            i += 1;
        }
        assert(paths.take(runtimes.len() as int) =~= paths);
        active
    }

    /// Whether the stream is forwarded.
    pub fn contains(&self, path: &str) -> (r: bool)
        ensures
            r == self@.contains(path@),
    {
        self.paths.contains_key(path)
    }

    /// Takes note of a stream that is forwarded from now on, and tells whether it is new.
    pub fn insert(&mut self, path: String) -> (r: bool)
        ensures
            final(self)@ == old(self)@.insert(path@),
            r == !old(self)@.contains(path@),
    {
        let r = self.paths.insert(path, ());
        assert(self@ =~= old(self)@.insert(path@));
        r
    }
}

proof fn lemma_set_of_one_more(paths: Seq<Seq<char>>, i: int)
    requires
        0 <= i < paths.len(),
    ensures
        paths.take(i + 1).to_set() == paths.take(i).to_set().insert(paths[i]),
{
    let before = paths.take(i);
    let now = paths.take(i + 1);
    assert forall|p: Seq<char>| now.to_set().contains(p) == before.to_set().insert(
        paths[i],
    ).contains(p) by {
        if before.contains(p) {
            let j = before.index_of(p);
            assert(now[j] == p);
        }
        assert(now[i] == paths[i]);
        if now.contains(p) && p != paths[i] {
            let j = now.index_of(p);
            assert(before[j] == p);
        }
    }
    assert(now.to_set() =~= before.to_set().insert(paths[i]));
}

/// What became of an event of a control stream.
#[derive(Debug)]
pub enum Discovery {
    /// It is not one of those that announce streams.
    Filtered,
    /// It does not name a stream.
    MissingPath,
    /// The path that it names is not a stream path.
    InvalidPath { path: String, error: Error },
    /// The stream that it names is forwarded already.
    AlreadyActive,
    /// The stream that it names is to be forwarded from now on.
    Spawn(StreamRuntime),
}

/// What a [`Discovery`] stands for.
pub ghost enum DiscoveryView {
    Filtered,
    MissingPath,
    InvalidPath { path: Seq<char>, error: ErrorView },
    AlreadyActive,
    Spawn(RuntimeView),
}

impl View for Discovery {
    type V = DiscoveryView;

    open spec fn view(&self) -> DiscoveryView {
        match self {
            Discovery::Filtered => DiscoveryView::Filtered,
            Discovery::MissingPath => DiscoveryView::MissingPath,
            Discovery::InvalidPath { path, error } => DiscoveryView::InvalidPath {
                path: path@,
                error: error@,
            },
            Discovery::AlreadyActive => DiscoveryView::AlreadyActive,
            Discovery::Spawn(runtime) => DiscoveryView::Spawn(runtime@),
        }
    }
}

/// The views of what became of the events, in order.
pub open spec fn discovery_views(discoveries: Seq<Discovery>) -> Seq<DiscoveryView> {
    discoveries.map_values(|discovery: Discovery| discovery@)
}

/// The stream at the announced path, as it is forwarded.
pub open spec fn announced_stream(path: Seq<char>, config: DiscoveryConfig) -> RuntimeView {
    RuntimeView {
        path,
        topic: discovered_topic(path, opt_view(config.topic_template)),
        start_offset: configured_offset(config.default_offset),
    }
}

/// What becomes of an event, where the streams in `active` are forwarded already.
pub open spec fn discovered(event: JsonTree, config: DiscoveryConfig, active: Set<Seq<char>>) -> DiscoveryView {
    if !announces(event, config) {
        DiscoveryView::Filtered
    } else {
        match named_path(event, config) {
            None => DiscoveryView::MissingPath,
            Some(path) => match path_outcome(path) {
                Err(error) => DiscoveryView::InvalidPath { path, error },
                Ok(_) => if active.contains(path) {
                    DiscoveryView::AlreadyActive
                } else {
                    DiscoveryView::Spawn(announced_stream(path, config))
                },
            },
        }
    }
}

/// The streams that are forwarded once the event has had its effect.
pub open spec fn active_after(active: Set<Seq<char>>, discovery: DiscoveryView) -> Set<Seq<char>> {
    match discovery {
        DiscoveryView::Spawn(runtime) => active.insert(runtime.path),
        _ => active,
    }
}

/// The streams that are forwarded once the events have had their effect.
pub open spec fn active_after_all(
    events: Seq<JsonTree>,
    config: DiscoveryConfig,
    active: Set<Seq<char>>,
) -> Set<Seq<char>>
    decreases events.len(),
{
    if events.len() == 0 {
        active
    } else {
        let before = active_after_all(events.drop_last(), config, active);
        active_after(before, discovered(events.last(), config, before))
    }
}

/// What becomes of the events, in order.
pub open spec fn all_discovered(
    events: Seq<JsonTree>,
    config: DiscoveryConfig,
    active: Set<Seq<char>>,
) -> Seq<DiscoveryView>
    decreases events.len(),
{
    if events.len() == 0 {
        Seq::empty()
    } else {
        let before = active_after_all(events.drop_last(), config, active);
        all_discovered(events.drop_last(), config, active).push(
            discovered(events.last(), config, before),
        )
    }
}

/// Decides what becomes of one event of a control stream.
pub fn process_single_event(
    event: &serde_json::Value,
    config: &DiscoveryConfig,
    active_paths: &mut ActivePaths,
) -> (r: Discovery)
    ensures
        r@ == discovered(json_tree(*event), *config, old(active_paths)@),
        final(active_paths)@ == active_after(old(active_paths)@, r@),
        r matches Discovery::Spawn(stream) ==> denotes(config.default_offset, stream.start_offset@)
            && announces_path(json_tree(*event), *config, stream.path@) && !old(
            active_paths,
        )@.contains(stream.path@) && final(active_paths)@.contains(stream.path@),
{
    proof {
        law_configured_offset(config.default_offset);
    }
    if !passes_filter(event, config) {
        return Discovery::Filtered;
    }
    let resolved = match path_in_event(event, config) {
        Some(resolved) => resolved,
        None => {
            return Discovery::MissingPath;
        },
    };
    if let Err(error) = StreamPath::new(resolved.as_str()) {
        return Discovery::InvalidPath { path: resolved, error };
    }
    if active_paths.contains(resolved.as_str()) {
        return Discovery::AlreadyActive;
    }
    active_paths.insert(resolved.clone());
    let template = match &config.topic_template {
        Some(template) => Some(template.as_str()),
        None => None,
    };
    let topic = topic_for_discovered_stream(resolved.as_str(), template);
    Discovery::Spawn(StreamRuntime { path: resolved, topic, start_offset: config.start_offset() })
}

/// Decides what becomes of each event in a document of a control stream.
pub fn process_document(
    document: &serde_json::Value,
    config: &DiscoveryConfig,
    active_paths: &mut ActivePaths,
) -> (r: Vec<Discovery>)
    ensures
        discovery_views(r@) == all_discovered(
            events_in(json_tree(*document)),
            *config,
            old(active_paths)@,
        ),
        final(active_paths)@ == active_after_all(
            events_in(json_tree(*document)),
            *config,
            old(active_paths)@,
        ),
{
    let ghost events = events_in(json_tree(*document));
    let ghost start = active_paths@;
    let mut out: Vec<Discovery> = Vec::new();
    let items = match json_items(document) {
        Some(items) => items,
        None => {
            let discovery = process_single_event(document, config, active_paths);
            out.push(discovery);
            proof {
                let none = Seq::<JsonTree>::empty();
                assert(events.drop_last() =~= none);
                assert(active_after_all(none, *config, start) == start);
                assert(all_discovered(none, *config, start) =~= Seq::empty());
                assert(discovery_views(out@) =~= all_discovered(events, *config, start));
            }
            return out;
        },
    };
    let mut i: usize = 0;
    proof {
        assert(events.take(0) =~= Seq::empty());
        assert(discovery_views(out@) =~= all_discovered(events.take(0), *config, start));
    }
    while i < items.len()
        invariant
            i <= items.len(),
            events == items@.map_values(|item: serde_json::Value| json_tree(item)),
            discovery_views(out@) == all_discovered(events.take(i as int), *config, start),
            active_paths@ == active_after_all(events.take(i as int), *config, start),
        decreases items.len() - i,
    {
        let ghost before = discovery_views(out@);
        assert(events.take(i + 1).drop_last() =~= events.take(i as int));
        assert(events.take(i + 1).last() == json_tree(items@[i as int]));
        let discovery = process_single_event(&items[i], config, active_paths);
        out.push(discovery);
        assert(discovery_views(out@) =~= before.push(discovery@));
        i += 1;
    }
    assert(events.take(items.len() as int) =~= events);
    out
}

/// Decides what becomes of each event in a payload of a control stream. A payload that is not a
/// JSON document is skipped; the message says why.
pub fn process_discovery_event(
    payload: &[u8],
    config: &DiscoveryConfig,
    active_paths: &mut ActivePaths,
) -> (r: Result<Vec<Discovery>, String>)
    ensures
        match json_document(payload@) {
            Ok(document) => r is Ok && discovery_views(r->Ok_0@) == all_discovered(
                events_in(document),
                *config,
                old(active_paths)@,
            ) && final(active_paths)@ == active_after_all(
                events_in(document),
                *config,
                old(active_paths)@,
            ),
            Err(message) => r is Err && r->Err_0@ == message && final(active_paths)@ == old(
                active_paths,
            )@,
        },
{
    match parse_json(payload) {
        Ok(document) => Ok(process_document(&document, config, active_paths)),
        Err(message) => Err(message),
    }
}

/// The paths that the events name, in order, but for those that do not announce streams or do not
/// name one.
pub open spec fn named_paths(events: Seq<JsonTree>, config: DiscoveryConfig) -> Seq<Seq<char>>
    decreases events.len(),
{
    if events.len() == 0 {
        Seq::empty()
    } else {
        let earlier = named_paths(events.drop_last(), config);
        match named_path(events.last(), config) {
            Some(path) => if announces(events.last(), config) {
                earlier.push(path)
            } else {
                earlier
            },
            None => earlier,
        }
    }
}

/// The paths that one event names: at most one.
fn paths_in_event(event: &serde_json::Value, config: &DiscoveryConfig, paths: &mut Vec<String>)
    ensures
        views(final(paths)@) == match named_path(json_tree(*event), *config) {
            Some(path) => if announces(json_tree(*event), *config) {
                views(old(paths)@).push(path)
            } else {
                views(old(paths)@)
            },
            None => views(old(paths)@),
        },
{
    if passes_filter(event, config) {
        if let Some(path) = path_in_event(event, config) {
            paths.push(path);
            assert(views(paths@) =~= views(old(paths)@).push(path@));
        }
    }
}

/// The paths that the events in a document name.
pub fn extract_paths(document: &serde_json::Value, config: &DiscoveryConfig) -> (r: Vec<String>)
    ensures
        views(r@) == named_paths(events_in(json_tree(*document)), *config),
{
    let ghost events = events_in(json_tree(*document));
    let mut paths: Vec<String> = Vec::new();
    assert(views(paths@) =~= Seq::empty());
    let items = match json_items(document) {
        Some(items) => items,
        None => {
            paths_in_event(document, config, &mut paths);
            proof {
                let none = Seq::<JsonTree>::empty();
                assert(events.drop_last() =~= none);
                assert(named_paths(none, *config) =~= Seq::empty());
            }
            return paths;
        },
    };
    let mut i: usize = 0;
    assert(events.take(0) =~= Seq::empty());
    while i < items.len()
        invariant
            i <= items.len(),
            events == items@.map_values(|item: serde_json::Value| json_tree(item)),
            views(paths@) == named_paths(events.take(i as int), *config),
        decreases items.len() - i,
    {
        assert(events.take(i + 1).drop_last() =~= events.take(i as int));
        assert(events.take(i + 1).last() == json_tree(items@[i as int]));
        paths_in_event(&items[i], config, &mut paths);
        i += 1;
    }
    assert(events.take(items.len() as int) =~= events);
    paths
}

/// The paths that the events in a payload name; none where the payload is not a JSON document.
pub fn extract_paths_from_payload(payload: &[u8], config: &DiscoveryConfig) -> (r: Vec<String>)
    ensures
        views(r@) == match json_document(payload@) {
            Ok(document) => named_paths(events_in(document), *config),
            Err(_) => Seq::empty(),
        },
{
    match parse_json(payload) {
        Ok(document) => extract_paths(&document, config),
        Err(_) => {
            let paths: Vec<String> = Vec::new();
            assert(views(paths@) =~= Seq::empty());
            paths
        },
    }
}

/// What came of a checkpoint of a control stream: what became of the events before it, if there
/// are any, or why they could not be read, and what to do so that the file of the store keeps the
/// offset of the checkpoint.
#[derive(Debug)]
pub struct ControlStep {
    pub found: Option<Result<Vec<Discovery>, String>>,
    pub save: Vec<SaveStep>,
}

/// What became of events, seen through the views of its values.
pub open spec fn found_view(found: Option<Result<Vec<Discovery>, String>>) -> Option<
    Result<Seq<DiscoveryView>, Seq<char>>,
> {
    match found {
        Some(Ok(discoveries)) => Some(Ok(discovery_views(discoveries@))),
        Some(Err(message)) => Some(Err(message@)),
        None => None,
    }
}

/// What becomes of the events in the payload, if it holds anything, or why they cannot be read.
pub open spec fn found_in(payload: Seq<u8>, config: DiscoveryConfig, active: Set<Seq<char>>) -> Option<
    Result<Seq<DiscoveryView>, Seq<char>>,
> {
    if payload.len() == 0 {
        None
    } else {
        match json_document(payload) {
            Ok(document) => Some(Ok(all_discovered(events_in(document), config, active))),
            Err(message) => Some(Err(message)),
        }
    }
}

/// The streams that are forwarded once the events in the payload have had their effect.
pub open spec fn active_after_payload(
    payload: Seq<u8>,
    config: DiscoveryConfig,
    active: Set<Seq<char>>,
) -> Set<Seq<char>> {
    if payload.len() == 0 {
        active
    } else {
        match json_document(payload) {
            Ok(document) => active_after_all(events_in(document), config, active),
            Err(_) => active,
        }
    }
}

/// Follows a control stream: it holds data back until a checkpoint comes.
#[derive(Debug)]
pub struct Watcher {
    config: DiscoveryConfig,
    pending_payload: Vec<u8>,
}

/// What a [`Watcher`] stands for.
#[verifier::ext_equal]
pub ghost struct WatcherView {
    pub config: DiscoveryConfig,
    pub pending: Seq<u8>,
}

impl View for Watcher {
    type V = WatcherView;

    closed spec fn view(&self) -> WatcherView {
        WatcherView { config: self.config, pending: self.pending_payload@ }
    }
}

impl WatcherView {
    /// The watcher after the event.
    pub open spec fn after(self, event: EventView) -> WatcherView {
        match event {
            EventView::Data(bytes) => WatcherView { pending: self.pending + bytes, ..self },
            EventView::Checkpoint(_) => WatcherView { pending: Seq::empty(), ..self },
        }
    }
}

/// Starts to follow the control stream, always from its configured offset: the streams that it
/// announced before a restart are discovered again by reading it again.
pub fn run_discovery(client: &DurableStreamsClient, config: DiscoveryConfig) -> (r: Result<
    (Watcher, Subscription),
    BridgeError,
>)
    ensures
        match path_outcome(config.control_stream@) {
            Ok(path) => r is Ok && r->Ok_0.0@ == (WatcherView {
                config,
                pending: Seq::empty(),
            }) && r->Ok_0.1@ == SubscriptionView::initial(
                StreamView { transport: client@, path },
                configured_offset(config.default_offset),
            ),
            Err(error) => r matches Err(BridgeError::Client(e)) && e@ == error,
        },
{
    let durable_stream = match client.stream(config.control_stream.as_str()) {
        Ok(durable_stream) => durable_stream,
        Err(error) => {
            return Err(BridgeError::Client(error));
        },
    };
    let offset = config.start_offset();
    let subscription = durable_stream.subscribe(SubscribeRequest { offset });
    Ok((Watcher::new(config), subscription))
}

impl Watcher {
    /// A watcher that has not seen any event.
    pub fn new(config: DiscoveryConfig) -> (r: Watcher)
        ensures
            r@ == (WatcherView { config, pending: Seq::empty() }),
    {
        let r = Watcher { config, pending_payload: Vec::new() };
        assert(r@ =~= WatcherView { config, pending: Seq::empty() });
        r
    }

    /// Takes in an event. On a checkpoint, the events before it are processed; then its offset is
    /// kept. What cannot be read as JSON is skipped.
    pub fn event(
        &mut self,
        event: SubscriptionEvent,
        active_paths: &mut ActivePaths,
        store: &mut OffsetStore,
    ) -> (r: Option<ControlStep>)
        ensures
            final(self)@ == old(self)@.after(event@),
            match event@ {
                EventView::Data(_) => {
                    &&& r is None
                    &&& final(active_paths)@ == old(active_paths)@
                    &&& final(store)@ == old(store)@
                },
                EventView::Checkpoint(checkpoint) => {
                    let watcher = old(self)@;
                    let active = old(active_paths)@;
                    &&& r is Some
                    &&& found_view(r->0.found) == found_in(watcher.pending, watcher.config, active)
                    &&& final(active_paths)@ == active_after_payload(
                        watcher.pending,
                        watcher.config,
                        active,
                    )
                    &&& final(store)@ == old(store)@.saved(
                        watcher.config.control_stream@,
                        checkpoint.next_offset,
                    )
                    &&& replace_file(step_views(r->0.save@), old(store)@.path)
                },
            },
    {
        match event {
            SubscriptionEvent::Data(bytes) => {
                self.pending_payload.extend_from_slice(bytes.as_slice());
                assert(self@ =~= old(self)@.after(event@));
                None
            },
            SubscriptionEvent::Checkpoint(checkpoint) => {
                let mut payload: Vec<u8> = Vec::new();
                std::mem::swap(&mut payload, &mut self.pending_payload);
                assert(self@ =~= old(self)@.after(event@));
                let found = if payload.len() > 0 {
                    Some(process_discovery_event(payload.as_slice(), &self.config, active_paths))
                } else {
                    None
                };
                let save = store.save(
                    self.config.control_stream.as_str(),
                    &checkpoint.next_offset,
                );
                Some(ControlStep { found, save })
            },
        }
    }

    /// Takes in what happened to the control stream. Discovery fails only where the subscription
    /// does: an offset that could not be kept is reported, and discovery goes on.
    pub fn step(
        &mut self,
        event: WatchEvent,
        active_paths: &mut ActivePaths,
        store: &mut OffsetStore,
    ) -> (r: Result<WatchStep, BridgeError>)
        ensures
            (match r {
                Ok(_) => None,
                Err(error) => Some(error),
            }) == failure_of(event),
            match event {
                WatchEvent::Received(received) => {
                    let watcher = old(self)@;
                    let active = old(active_paths)@;
                    &&& final(self)@ == watcher.after(received@)
                    &&& match received@ {
                        EventView::Data(_) => {
                            &&& r->Ok_0 is Continue
                            &&& final(active_paths)@ == active
                            &&& final(store)@ == old(store)@
                        },
                        EventView::Checkpoint(checkpoint) => {
                            &&& r->Ok_0 matches WatchStep::Act(step) && found_view(step.found)
                                == found_in(watcher.pending, watcher.config, active)
                                && replace_file(step_views(step.save@), old(store)@.path)
                            &&& final(active_paths)@ == active_after_payload(
                                watcher.pending,
                                watcher.config,
                                active,
                            )
                            &&& final(store)@ == old(store)@.saved(
                                watcher.config.control_stream@,
                                checkpoint.next_offset,
                            )
                        },
                    }
                },
                _ => {
                    &&& final(self)@ == old(self)@
                    &&& final(active_paths)@ == old(active_paths)@
                    &&& final(store)@ == old(store)@
                },
            },
            match event {
                WatchEvent::Kept(Ok(_)) => r->Ok_0 is Continue,
                WatchEvent::Kept(Err(error)) => r->Ok_0 == WatchStep::Report(error),
                WatchEvent::Ended => r->Ok_0 is Done,
                _ => true,
            },
    {
        match event {
            WatchEvent::Received(received) => match self.event(received, active_paths, store) {
                Some(step) => Ok(WatchStep::Act(step)),
                None => Ok(WatchStep::Continue),
            },
            WatchEvent::Failed(error) => Err(BridgeError::Client(error)),
            WatchEvent::Kept(Ok(())) => Ok(WatchStep::Continue),
            WatchEvent::Kept(Err(error)) => Ok(WatchStep::Report(error)),
            WatchEvent::Ended => Ok(WatchStep::Done),
        }
    }
}

/// What happened to a control stream.
#[derive(Debug)]
pub enum WatchEvent {
    /// The subscription gave an event.
    Received(SubscriptionEvent),
    /// The subscription failed.
    Failed(Error),
    /// The steps that keep the offset of a checkpoint have been taken, or one of them failed.
    Kept(Result<(), OffsetStoreError>),
    /// The control stream has ended.
    Ended,
}

/// What discovery does next.
#[derive(Debug)]
pub enum WatchStep {
    /// Wait for what happens next.
    Continue,
    /// Forward the streams that were found, and keep the offset.
    Act(ControlStep),
    /// Report that an offset could not be kept, and go on.
    Report(OffsetStoreError),
    /// End.
    Done,
}

/// The failure in which discovery ends on the event, if it does.
pub open spec fn failure_of(event: WatchEvent) -> Option<BridgeError> {
    match event {
        WatchEvent::Failed(error) => Some(BridgeError::Client(error)),
        _ => None,
    }
}

/// What discovery comes to on the events, up to the first in which it ends.
pub open spec fn discovery_result(events: Seq<WatchEvent>) -> Result<(), BridgeError>
    decreases events.len(),
{
    if events.len() == 0 {
        Ok(())
    } else {
        match failure_of(events[0]) {
            Some(error) => Err(error),
            None => if events[0] is Ended {
                Ok(())
            } else {
                discovery_result(events.drop_first())
            },
        }
    }
}

/// Discovery fails only where its subscription does, whatever comes of the offsets that it keeps.
pub proof fn law_discovery_fails_only_with_its_subscription(events: Seq<WatchEvent>)
    ensures
        (forall|i: int| 0 <= i < events.len() ==> !(#[trigger] events[i] is Failed))
            ==> discovery_result(events) is Ok,
        discovery_result(events) matches Err(error) ==> exists|i: int|
            0 <= i < events.len() && #[trigger] failure_of(events[i]) == Some(error),
    decreases events.len(),
{
    if events.len() > 0 {
        let more = events.drop_first();
        law_discovery_fails_only_with_its_subscription(more);
        assert(forall|i: int| 0 <= i < more.len() ==> #[trigger] more[i] == events[i + 1]);
        if let Err(error) = discovery_result(events) {
            if failure_of(events[0]) is None {
                let i = choose|i: int|
                    0 <= i < more.len() && #[trigger] failure_of(more[i]) == Some(error);
                assert(failure_of(events[i + 1]) == Some(error));
            }
        }
    }
}

/// Whether the stream at `path` is among those that are to be forwarded from now on.
pub open spec fn spawns(discovery: DiscoveryView, path: Seq<char>) -> bool {
    discovery matches DiscoveryView::Spawn(runtime) && runtime.path == path
}

/// A stream is not forwarded twice: one that is forwarded already is not announced as new, and
/// one that is announced as new counts as forwarded from then on.
pub proof fn law_no_stream_is_spawned_twice(
    events: Seq<JsonTree>,
    config: DiscoveryConfig,
    active: Set<Seq<char>>,
    i: int,
    j: int,
    path: Seq<char>,
)
    requires
        0 <= i < j < events.len(),
        spawns(all_discovered(events, config, active)[i], path),
    ensures
        !active.contains(path),
        !spawns(all_discovered(events, config, active)[j], path),
        active_after_all(events, config, active).contains(path),
{
    lemma_discovered_at(events, config, active, i);
    lemma_discovered_at(events, config, active, j);
    lemma_active_grows(events, config, active, i + 1, j);
    lemma_active_grows(events, config, active, i + 1, events.len() as int);
    lemma_active_grows(events, config, active, 0, i);
    assert(events.take(0) =~= Seq::empty());
    assert(events.take(events.len() as int) =~= events);
    assert(events.take(i + 1).drop_last() =~= events.take(i));
    assert(events.take(i + 1).last() == events[i]);
}

/// A stream that is forwarded already is never announced as new, whatever the events say, and it
/// stays forwarded.
pub proof fn law_active_streams_are_not_spawned(
    events: Seq<JsonTree>,
    config: DiscoveryConfig,
    active: Set<Seq<char>>,
    i: int,
    path: Seq<char>,
)
    requires
        0 <= i < events.len(),
        active.contains(path),
    ensures
        !spawns(all_discovered(events, config, active)[i], path),
        active_after_all(events, config, active).contains(path),
{
    lemma_discovered_at(events, config, active, i);
    lemma_active_grows(events, config, active, 0, i);
    lemma_active_grows(events, config, active, 0, events.len() as int);
    assert(events.take(0) =~= Seq::empty());
    assert(events.take(events.len() as int) =~= events);
}

/// What becomes of each event follows from the streams that are forwarded by then.
proof fn lemma_discovered_at(
    events: Seq<JsonTree>,
    config: DiscoveryConfig,
    active: Set<Seq<char>>,
    i: int,
)
    requires
        0 <= i < events.len(),
    ensures
        all_discovered(events, config, active).len() == events.len(),
        all_discovered(events, config, active)[i] == discovered(
            events[i],
            config,
            active_after_all(events.take(i), config, active),
        ),
    decreases events.len(),
{
    let before = events.drop_last();
    lemma_discovered_len(before, config, active);
    if i < before.len() {
        lemma_discovered_at(before, config, active, i);
        assert(before.take(i) =~= events.take(i));
    } else {
        assert(before =~= events.take(i));
    }
}

proof fn lemma_discovered_len(
    events: Seq<JsonTree>,
    config: DiscoveryConfig,
    active: Set<Seq<char>>,
)
    ensures
        all_discovered(events, config, active).len() == events.len(),
    decreases events.len(),
{
    if events.len() > 0 {
        lemma_discovered_len(events.drop_last(), config, active);
    }
}

proof fn lemma_active_grows(
    events: Seq<JsonTree>,
    config: DiscoveryConfig,
    active: Set<Seq<char>>,
    i: int,
    j: int,
)
    requires
        0 <= i <= j <= events.len(),
    ensures
        active_after_all(events.take(i), config, active).subset_of(
            active_after_all(events.take(j), config, active),
        ),
    decreases j - i,
{
    if i < j {
        lemma_active_grows(events, config, active, i, j - 1);
        assert(events.take(j).drop_last() =~= events.take(j - 1));
    }
}

/// Reading a control stream again discovers each stream again that it announces: after the
/// events every stream that one of them announces is forwarded, whatever was forwarded before.
pub proof fn law_reading_again_discovers_again(
    events: Seq<JsonTree>,
    config: DiscoveryConfig,
    active: Set<Seq<char>>,
    i: int,
    path: Seq<char>,
)
    requires
        0 <= i < events.len(),
        announces(events[i], config),
        named_path(events[i], config) == Some(path),
        path_fault(path) is None,
    ensures
        active_after_all(events, config, active).contains(path),
{
    lemma_active_grows(events, config, active, i + 1, events.len() as int);
    assert(events.take(events.len() as int) =~= events);
    assert(events.take(i + 1).drop_last() =~= events.take(i));
    assert(events.take(i + 1).last() == events[i]);
}

/// Events that do not announce a stream, do not name one or name one by what is not a stream path
/// are passed over: they have no effect.
pub proof fn law_other_events_have_no_effect(
    event: JsonTree,
    config: DiscoveryConfig,
    active: Set<Seq<char>>,
)
    requires
        !announces(event, config) || named_path(event, config) is None || path_fault(
            named_path(event, config)->0,
        ) is Some,
    ensures
        active_after(active, discovered(event, config, active)) == active,
        !(discovered(event, config, active) is Spawn),
{
}

/// The topic of a discovered stream is made of characters that Kafka allows.
pub proof fn law_discovered_topic_is_allowed(path: Seq<char>, template: Option<Seq<char>>)
    ensures
        topic_chars_only(discovered_topic(path, template)),
{
    match template {
        Some(template) => {
            law_topic_text(without_outer_slashes(replaced(template, "{path}"@, path)));
        },
        None => {
            law_derived_topic_is_allowed(path);
        },
    }
}

} // verus!
