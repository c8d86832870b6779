//! The configuration of the bridge.
use crate::bindings::{parent_of, path_in};
use crate::paths::{
    adjoined, ends_in, in_directory, is_bare, lemma_has_parts, plain_name, portable_path,
    starts_with, verbatim_path,
};
use crate::text::{blank, concat3, copy_of, is_blank, opt_view, same_text};
use crate::text_map::{ascending, lemma_precedes_one_way, precedes, TextMap};
use crate::types::offset::{Offset, OffsetView};
use crate::types::stream_path::{path_fault, path_outcome, StreamPath};
use vstd::prelude::*;
use vstd::string::*;

verus! {

/// The name of the offset store where the configuration gives none; it stands next to the
/// configuration file.
pub const OFFSET_STORE_NAME: &'static str = ".durable-streams-kafka-bridge-offsets.json";

/// The whole configuration.
#[derive(Debug, PartialEq, Eq)]
pub struct BridgeConfig {
    pub durable_streams: DurableStreamsConfig,
    pub kafka: KafkaConfig,
    pub targets: TextMap<TargetConfig>,
    pub topic_mapping: TopicMappingConfig,
    pub offset_store: OffsetStoreConfig,
    pub preflight: PreflightConfig,
    pub streams: Vec<StreamConfig>,
    pub discovery: Vec<DiscoveryConfig>,
}

/// Where the streams come from.
#[derive(Debug, PartialEq, Eq)]
pub struct DurableStreamsConfig {
    pub base_url: String,
    pub request_timeout_ms: u64,
}

/// Where the records go.
#[derive(Debug, PartialEq, Eq)]
pub struct KafkaConfig {
    pub bootstrap_servers: String,
    pub client_id: String,
    pub delivery_timeout_ms: u64,
    pub auth: Option<KafkaAuthConfig>,
}

/// How to log in to Kafka: the user and the password stand in the environment variables that are
/// named here.
#[derive(Debug, PartialEq, Eq)]
pub struct KafkaAuthConfig {
    pub security_protocol: String,
    pub sasl_mechanism: String,
    pub username_env: String,
    pub password_env: String,
    pub ssl_ca_location: Option<String>,
}

/// Where the records of streams go that do not say so themselves.
#[derive(Debug, PartialEq, Eq)]
pub struct TopicMappingConfig {
    pub default_topic: Option<String>,
}

/// A destination that streams refer to by its name.
#[derive(Debug, PartialEq, Eq)]
pub struct TargetConfig {
    pub topic: String,
}

/// Where the offsets are kept.
#[derive(Debug, PartialEq, Eq)]
pub struct OffsetStoreConfig {
    pub path: Option<String>,
}

/// What is checked before the bridge starts to forward.
#[derive(Debug, Clone, Copy, PartialEq, Eq, Structural)]
pub struct PreflightConfig {
    pub enabled: bool,
    pub timeout_ms: u64,
    pub require_topics_exist: bool,
}

/// A stream that is forwarded.
#[derive(Debug, PartialEq, Eq)]
pub struct StreamConfig {
    pub path: String,
    pub topic: Option<String>,
    pub target: Option<String>,
    pub offset: Option<String>,
}

/// A control stream whose events announce streams to forward.
#[derive(Debug, PartialEq, Eq)]
pub struct DiscoveryConfig {
    pub control_stream: String,
    pub filter_field: Option<String>,
    pub filter_value: Option<String>,
    pub path_field: String,
    pub path_prefix: Option<String>,
    pub default_offset: Option<String>,
    pub topic_template: Option<String>,
}

/// What can be wrong with a configuration.
#[derive(Debug)]
pub enum ConfigError {
    Read { path: String, source: String },
    Parse { path: String, source: String },
    Validation(String),
}

impl Clone for DurableStreamsConfig {
    fn clone(&self) -> (r: DurableStreamsConfig)
        ensures
            r == *self,
    {
        DurableStreamsConfig {
            base_url: self.base_url.clone(),
            request_timeout_ms: self.request_timeout_ms,
        }
    }
}

impl Clone for KafkaConfig {
    fn clone(&self) -> (r: KafkaConfig)
        ensures
            r == *self,
    {
        KafkaConfig {
            bootstrap_servers: self.bootstrap_servers.clone(),
            client_id: self.client_id.clone(),
            delivery_timeout_ms: self.delivery_timeout_ms,
            auth: match &self.auth {
                Some(auth) => Some(auth.clone()),
                None => None,
            },
        }
    }
}

impl Clone for KafkaAuthConfig {
    fn clone(&self) -> (r: KafkaAuthConfig)
        ensures
            r == *self,
    {
        KafkaAuthConfig {
            security_protocol: self.security_protocol.clone(),
            sasl_mechanism: self.sasl_mechanism.clone(),
            username_env: self.username_env.clone(),
            password_env: self.password_env.clone(),
            ssl_ca_location: copy_of(&self.ssl_ca_location),
        }
    }
}

impl Clone for TopicMappingConfig {
    fn clone(&self) -> (r: TopicMappingConfig)
        ensures
            r == *self,
    {
        TopicMappingConfig { default_topic: copy_of(&self.default_topic) }
    }
}

impl Clone for TargetConfig {
    fn clone(&self) -> (r: TargetConfig)
        ensures
            r == *self,
    {
        TargetConfig { topic: self.topic.clone() }
    }
}

impl Clone for OffsetStoreConfig {
    fn clone(&self) -> (r: OffsetStoreConfig)
        ensures
            r == *self,
    {
        OffsetStoreConfig { path: copy_of(&self.path) }
    }
}

impl Clone for StreamConfig {
    fn clone(&self) -> (r: StreamConfig)
        ensures
            r == *self,
    {
        StreamConfig {
            path: self.path.clone(),
            topic: copy_of(&self.topic),
            target: copy_of(&self.target),
            offset: copy_of(&self.offset),
        }
    }
}

impl Clone for DiscoveryConfig {
    fn clone(&self) -> (r: DiscoveryConfig)
        ensures
            r == *self,
    {
        DiscoveryConfig {
            control_stream: self.control_stream.clone(),
            filter_field: copy_of(&self.filter_field),
            filter_value: copy_of(&self.filter_value),
            path_field: self.path_field.clone(),
            path_prefix: copy_of(&self.path_prefix),
            default_offset: copy_of(&self.default_offset),
            topic_template: copy_of(&self.topic_template),
        }
    }
}

/// How long a request may take, in milliseconds, where the configuration does not say so.
pub fn default_request_timeout_ms() -> (r: u64)
    ensures
        r == 30_000,
{
    30_000
}

/// How the bridge calls itself in Kafka where the configuration does not say so.
pub fn default_client_id() -> (r: String)
    ensures
        r@ == "durable-streams-kafka-bridge"@,
{
    "durable-streams-kafka-bridge".to_owned()
}

/// How long a delivery may take, in milliseconds, where the configuration does not say so.
pub fn default_delivery_timeout_ms() -> (r: u64)
    ensures
        r == 30_000,
{
    30_000
}

/// The protocol of the connection to Kafka where the configuration does not name one.
pub fn default_security_protocol() -> (r: String)
    ensures
        r@ == "SASL_SSL"@,
{
    "SASL_SSL".to_owned()
}

/// The way to log in to Kafka where the configuration does not name one.
pub fn default_sasl_mechanism() -> (r: String)
    ensures
        r@ == "PLAIN"@,
{
    "PLAIN".to_owned()
}

/// The checks are made unless the configuration says otherwise.
pub fn default_true() -> (r: bool)
    ensures
        r,
{
    true
}

/// How long a check may take, in milliseconds, where the configuration does not say so.
pub fn default_preflight_timeout_ms() -> (r: u64)
    ensures
        r == 5_000,
{
    5_000
}

impl Default for TopicMappingConfig {
    fn default() -> (r: TopicMappingConfig)
        ensures
            r.default_topic is None,
    {
        TopicMappingConfig { default_topic: None }
    }
}

impl Default for OffsetStoreConfig {
    fn default() -> (r: OffsetStoreConfig)
        ensures
            r.path is None,
    {
        OffsetStoreConfig { path: None }
    }
}

impl Default for PreflightConfig {
    fn default() -> (r: PreflightConfig)
        ensures
            r.enabled,
            r.timeout_ms == 5_000,
            r.require_topics_exist,
    {
        PreflightConfig {
            enabled: default_true(),
            timeout_ms: default_preflight_timeout_ms(),
            require_topics_exist: default_true(),
        }
    }
}

/// The first of the faults, if there is one.
pub open spec fn first_fault(faults: Seq<Option<Seq<char>>>) -> Option<Seq<char>>
    decreases faults.len(),
{
    if faults.len() == 0 {
        None
    } else {
        match faults[0] {
            Some(fault) => Some(fault),
            None => first_fault(faults.skip(1)),
        }
    }
}

/// What is wrong with a control stream, if anything is.
pub open spec fn discovery_fault(config: DiscoveryConfig) -> Option<Seq<char>> {
    if blank(config.control_stream@) {
        Some("`discovery.control_stream` must be non-empty"@)
    } else {
        match path_outcome(config.control_stream@) {
            Err(error) => Some(
                "invalid discovery control_stream `"@ + config.control_stream@ + "`: "@
                    + error.message(),
            ),
            Ok(_) => if blank(config.path_field@) {
                Some("`discovery.path_field` must be non-empty"@)
            } else {
                None
            },
        }
    }
}

/// What is wrong with a stream, if anything is.
pub open spec fn stream_fault(stream: StreamConfig, targets: Map<Seq<char>, TargetConfig>) -> Option<
    Seq<char>,
> {
    match path_outcome(stream.path@) {
        Err(error) => Some(
            "invalid stream path `"@ + stream.path@ + "` in config: "@ + error.message(),
        ),
        Ok(_) => match opt_view(stream.target) {
            Some(target) => if targets.contains_key(target) {
                None
            } else {
                Some("stream `"@ + stream.path@ + "` references unknown target `"@ + target + "`"@)
            },
            None => None,
        },
    }
}

/// Whether the target has no topic.
pub open spec fn lacks_topic(targets: Map<Seq<char>, TargetConfig>, name: Seq<char>) -> bool {
    targets.contains_key(name) && blank(targets[name].topic@)
}

/// Whether `name` is the first, in order, of the targets without a topic.
pub open spec fn first_without_topic(
    targets: Map<Seq<char>, TargetConfig>,
    name: Seq<char>,
) -> bool {
    lacks_topic(targets, name) && forall|other: Seq<char>| #[trigger]
        lacks_topic(targets, other) ==> other == name || precedes(name, other)
}

/// What is wrong with the targets, if anything is.
pub open spec fn target_fault(targets: Map<Seq<char>, TargetConfig>) -> Option<Seq<char>> {
    if exists|name: Seq<char>| lacks_topic(targets, name) {
        let name = choose|name: Seq<char>| first_without_topic(targets, name);
        Some("target `"@ + name + "` must define a non-empty topic"@)
    } else {
        None
    }
}

/// What is wrong with the login to Kafka, if anything is.
pub open spec fn auth_fault(auth: Option<KafkaAuthConfig>) -> Option<Seq<char>> {
    match auth {
        Some(auth) => if blank(auth.username_env@) {
            Some("`kafka.auth.username_env` must define a non-empty env var name"@)
        } else if blank(auth.password_env@) {
            Some("`kafka.auth.password_env` must define a non-empty env var name"@)
        } else {
            None
        },
        None => None,
    }
}

/// What is wrong with the topic of all streams, if anything is.
pub open spec fn mapping_fault(mapping: TopicMappingConfig) -> Option<Seq<char>> {
    match opt_view(mapping.default_topic) {
        Some(topic) => if blank(topic) {
            Some("`topic_mapping.default_topic` must define a non-empty topic"@)
        } else {
            None
        },
        None => None,
    }
}

/// What is wrong with the configuration, if anything is.
pub open spec fn config_fault(config: BridgeConfig) -> Option<Seq<char>> {
    first_fault(
        seq![
            if config.streams@.len() == 0 && config.discovery@.len() == 0 {
                Some("at least one `[[streams]]` or `[[discovery]]` entry is required"@)
            } else {
                None
            },
            first_fault(config.discovery@.map_values(|d: DiscoveryConfig| discovery_fault(d))),
            first_fault(
                config.streams@.map_values(|s: StreamConfig| stream_fault(s, config.targets@)),
            ),
            target_fault(config.targets@),
            auth_fault(config.kafka.auth),
            mapping_fault(config.topic_mapping),
        ],
    )
}

/// Whether `r` reports exactly the fault.
pub open spec fn reports(r: Result<(), ConfigError>, fault: Option<Seq<char>>) -> bool {
    match fault {
        Some(message) => r matches Err(ConfigError::Validation(text)) && text@ == message,
        None => r is Ok,
    }
}

proof fn lemma_first_fault_from(faults: Seq<Option<Seq<char>>>, i: int)
    requires
        0 <= i <= faults.len(),
        forall|j: int| 0 <= j < i ==> #[trigger] faults[j] is None,
    ensures
        first_fault(faults) == first_fault(faults.skip(i)),
    decreases i,
{
    if i == 0 {
        assert(faults.skip(0) =~= faults);
    } else {
        lemma_first_fault_from(faults.skip(1), i - 1);
        assert(faults.skip(1).skip(i - 1) =~= faults.skip(i));
    }
}

/// The first fault is the one before which there is none.
proof fn lemma_first_fault_at(faults: Seq<Option<Seq<char>>>, i: int)
    requires
        0 <= i < faults.len(),
        forall|j: int| 0 <= j < i ==> #[trigger] faults[j] is None,
        faults[i] is Some,
    ensures
        first_fault(faults) == faults[i],
{
    lemma_first_fault_from(faults, i);
}

proof fn lemma_no_fault(faults: Seq<Option<Seq<char>>>)
    requires
        forall|j: int| 0 <= j < faults.len() ==> #[trigger] faults[j] is None,
    ensures
        first_fault(faults) is None,
{
    lemma_first_fault_from(faults, faults.len() as int);
}

/// Where there is no first fault there is none.
proof fn lemma_faultless(faults: Seq<Option<Seq<char>>>, i: int)
    requires
        first_fault(faults) is None,
        0 <= i < faults.len(),
    ensures
        faults[i] is None,
    decreases faults.len(),
{
    if i > 0 {
        lemma_faultless(faults.skip(1), i - 1);
        assert(faults.skip(1)[i - 1] == faults[i]);
    }
}

proof fn lemma_first_without_topic_is_one(
    targets: Map<Seq<char>, TargetConfig>,
    a: Seq<char>,
    b: Seq<char>,
)
    requires
        first_without_topic(targets, a),
        first_without_topic(targets, b),
    ensures
        a == b,
{
    lemma_precedes_one_way(a, b);
}

/// The target, in order, that has no topic, if there is one.
fn first_target_without_topic(targets: &TextMap<TargetConfig>) -> (r: Option<&str>)
    ensures
        match r {
            Some(name) => first_without_topic(targets@, name@),
            None => forall|name: Seq<char>| !#[trigger] lacks_topic(targets@, name),
        },
{
    let count: usize = targets.len();
    let mut i: usize = 0;
    while i < count
        invariant
            count == targets.keys().len(),
            i <= count,
            ascending(targets.keys()),
            forall|key: Seq<char>|
                #![trigger targets@.contains_key(key)]
                targets@.contains_key(key) <==> targets.keys().contains(key),
            forall|j: int| 0 <= j < i ==> !lacks_topic(targets@, #[trigger] targets.keys()[j]),
        decreases count - i,
    {
        let (name, target) = targets.at(i);
        if is_blank(target.topic.as_str()) {
            proof {
                assert forall|other: Seq<char>| #[trigger]
                    lacks_topic(targets@, other) implies other == name@ || precedes(
                    name@,
                    other,
                ) by {
                    assert(targets@.contains_key(other));
                    let j = targets.keys().index_of(other);
                    assert(targets.keys()[j] == other);
                    if j < i {
                        assert(!lacks_topic(targets@, targets.keys()[j]));
                    } else if i < j {
                        assert(precedes(targets.keys()[i as int], targets.keys()[j]));
                    }
                }
            }
            return Some(name);
        }
        i += 1;
    }
    proof {
        assert forall|name: Seq<char>| !#[trigger] lacks_topic(targets@, name) by {
            if lacks_topic(targets@, name) {
                assert(targets@.contains_key(name));
                let j = targets.keys().index_of(name);
                assert(targets.keys()[j] == name);
            }
        }
    }
    None
}

impl StreamConfig {
    /// The offset from which the stream is read where none has been kept.
    #[must_use]
    pub fn start_offset(&self) -> (r: Offset)
        ensures
            r@ == configured_offset(self.offset),
    {
        read_offset(&self.offset)
    }

    /// Checks the stream against the targets.
    fn validate(&self, targets: &TextMap<TargetConfig>) -> (r: Result<(), ConfigError>)
        ensures
            reports(r, stream_fault(*self, targets@)),
    {
        if let Err(error) = StreamPath::new(self.path.as_str()) {
            let mut text = concat3("invalid stream path `", self.path.as_str(), "` in config: ");
            text.append(error.message().as_str());
            return Err(ConfigError::Validation(text));
        }
        if let Some(target) = &self.target {
            if !targets.contains_key(target.as_str()) {
                let mut text = concat3(
                    "stream `",
                    self.path.as_str(),
                    "` references unknown target `",
                );
                text.append(target.as_str());
                text.append("`");
                return Err(ConfigError::Validation(text));
            }
        }
        Ok(())
    }
}

/// The position that a configured offset stands for: the start of the stream where it is called
/// `start` or there is none, and else the position that the text denotes.
pub open spec fn configured_offset(offset: Option<String>) -> OffsetView {
    match opt_view(offset) {
        Some(text) => if text == "start"@ {
            OffsetView::Start
        } else {
            OffsetView::of_text(text)
        },
        None => OffsetView::Start,
    }
}

/// The position that a configured offset stands for.
fn read_offset(offset: &Option<String>) -> (r: Offset)
    ensures
        r@ == configured_offset(*offset),
{
    match offset {
        Some(text) => if same_text(text.as_str(), "start") {
            Offset::start()
        } else {
            Offset::from(text.as_str())
        },
        None => Offset::start(),
    }
}

impl DiscoveryConfig {
    /// Checks the control stream and the field that holds the path.
    pub fn validate(&self) -> (r: Result<(), ConfigError>)
        ensures
            reports(r, discovery_fault(*self)),
    {
        if is_blank(self.control_stream.as_str()) {
            return Err(
                ConfigError::Validation("`discovery.control_stream` must be non-empty".to_owned()),
            );
        }
        if let Err(error) = StreamPath::new(self.control_stream.as_str()) {
            let mut text = concat3(
                "invalid discovery control_stream `",
                self.control_stream.as_str(),
                "`: ",
            );
            text.append(error.message().as_str());
            return Err(ConfigError::Validation(text));
        }
        if is_blank(self.path_field.as_str()) {
            return Err(
                ConfigError::Validation("`discovery.path_field` must be non-empty".to_owned()),
            );
        }
        Ok(())
    }

    /// The offset from which the control stream, and the streams that it announces, are read.
    #[must_use]
    pub fn start_offset(&self) -> (r: Offset)
        ensures
            r@ == configured_offset(self.default_offset),
    {
        read_offset(&self.default_offset)
    }
}

/// Where the offset store stands, where the configuration does not say so.
pub open spec fn default_directory(parent: Option<Seq<char>>) -> Seq<char> {
    match parent {
        Some(parent) => parent,
        None => "."@,
    }
}

/// Whether the path of the offset store puts it next to the configuration file: in the directory
/// of the last part of that file's path, and in the current one where the path has no parts. Of
/// a path that platforms read differently, the directory is some start of it, or the current one.
pub open spec fn stands_beside(store_path: Seq<char>, config_path: Seq<char>) -> bool {
    &&& is_bare(config_path) ==> in_directory(store_path, "."@, OFFSET_STORE_NAME@)
    &&& forall|dir: Seq<char>, last: Seq<char>| #[trigger]
        ends_in(config_path, dir, last) ==> in_directory(store_path, dir, OFFSET_STORE_NAME@)
    &&& !verbatim_path(config_path) ==> exists|dir: Seq<char>|
        (dir == "."@ || starts_with(config_path, dir)) && #[trigger] adjoined(
            store_path,
            dir,
            OFFSET_STORE_NAME@,
        )
}

impl OffsetStoreConfig {
    /// Where the configuration gives no path, takes the default one: next to the configuration
    /// file, which is in the directory `parent`.
    pub fn resolve_in(&mut self, parent: Option<String>)
        ensures
            old(self).path is Some ==> *final(self) == *old(self),
            old(self).path is None ==> final(self).path is Some && {
                let dir = default_directory(opt_view(parent));
                let path = final(self).path->0@;
                &&& portable_path(dir) ==> in_directory(path, dir, OFFSET_STORE_NAME@)
                &&& !verbatim_path(dir) ==> adjoined(path, dir, OFFSET_STORE_NAME@)
            },
    {
        if self.path.is_none() {
            let dir = match parent {
                Some(parent) => parent,
                None => ".".to_owned(),
            };
            proof {
                lemma_store_name_is_plain();
            }
            self.path = Some(path_in(dir.as_str(), OFFSET_STORE_NAME));
        }
    }

    /// Where the configuration gives no path, takes the default one: next to the configuration
    /// file.
    pub fn resolve_default(&mut self, config_path: &str)
        ensures
            old(self).path is Some ==> *final(self) == *old(self),
            old(self).path is None ==> final(self).path is Some,
            old(self).path is None ==> stands_beside(final(self).path->0@, config_path@),
    {
        let parent = parent_of(config_path);
        let ghost dir = default_directory(opt_view(parent));
        proof {
            if parent is Some {
                assert(forall|i: int|
                    0 <= i < dir.len() ==> #[trigger] dir[i] == config_path@.take(
                        dir.len() as int,
                    )[i]);
            }
            reveal_strlit(".");
            assert("."@.len() == 1);
            assert forall|dir: Seq<char>, last: Seq<char>| #[trigger]
                ends_in(config_path@, dir, last) implies portable_path(dir) by {
                lemma_portable_directory(config_path@, dir, last);
            }
        }
        self.resolve_in(parent);
    }
}

proof fn lemma_portable_directory(path: Seq<char>, dir: Seq<char>, last: Seq<char>)
    requires
        ends_in(path, dir, last),
    ensures
        portable_path(dir),
{
    if dir.len() > 0 && dir != seq!['/'] {
        assert forall|i: int| 0 <= i < dir.len() implies #[trigger] path[i] == dir[i] by {
            assert(path.take(dir.len() as int)[i] == path[i]);
        }
    }
    if dir.contains('\\') {
        let i = dir.index_of('\\');
        assert(path[i] == '\\');
    }
}

/// By default the offsets are kept next to the configuration file, in the directory that its path
/// names.
pub proof fn law_default_store_stands_beside(store_path: Seq<char>, config_path: Seq<char>)
    requires
        portable_path(config_path),
        stands_beside(store_path, config_path),
    ensures
        exists|dir: Seq<char>| #[trigger]
            in_directory(store_path, dir, OFFSET_STORE_NAME@) && if is_bare(config_path) {
                dir == "."@
            } else {
                exists|last: Seq<char>| ends_in(config_path, dir, last)
            },
{
    if is_bare(config_path) {
        assert(in_directory(store_path, "."@, OFFSET_STORE_NAME@));
    } else {
        lemma_has_parts(config_path);
        let (dir, last) = choose|dir: Seq<char>, last: Seq<char>| ends_in(config_path, dir, last);
        assert(in_directory(store_path, dir, OFFSET_STORE_NAME@));
    }
}

proof fn lemma_store_name_is_plain()
    ensures
        plain_name(OFFSET_STORE_NAME@),
{
    reveal_strlit(".durable-streams-kafka-bridge-offsets.json");
    reveal_strlit(".");
    reveal_strlit("..");
    assert("."@.len() == 1 && ".."@.len() == 2);
}

impl BridgeConfig {
    /// Checks the whole configuration, and reports the first fault.
    pub fn validate(&self) -> (r: Result<(), ConfigError>)
        ensures
            reports(r, config_fault(*self)),
    {
        let ghost discovery_faults = self.discovery@.map_values(
            |d: DiscoveryConfig| discovery_fault(d),
        );
        let ghost stream_faults = self.streams@.map_values(
            |s: StreamConfig| stream_fault(s, self.targets@),
        );
        let ghost faults = seq![
            if self.streams@.len() == 0 && self.discovery@.len() == 0 {
                Some("at least one `[[streams]]` or `[[discovery]]` entry is required"@)
            } else {
                None
            },
            first_fault(discovery_faults),
            first_fault(stream_faults),
            target_fault(self.targets@),
            auth_fault(self.kafka.auth),
            mapping_fault(self.topic_mapping),
        ];
        assert(config_fault(*self) == first_fault(faults));
        if self.streams.len() == 0 && self.discovery.len() == 0 {
            proof {
                lemma_first_fault_at(faults, 0);
            }
            return Err(
                ConfigError::Validation(
                    "at least one `[[streams]]` or `[[discovery]]` entry is required".to_owned(),
                ),
            );
        }
        let mut i: usize = 0;
        while i < self.discovery.len()
            invariant
                i <= self.discovery.len(),
                discovery_faults == self.discovery@.map_values(
                    |d: DiscoveryConfig| discovery_fault(d),
                ),
                forall|j: int| 0 <= j < i ==> #[trigger] discovery_faults[j] is None,
                faults.len() == 6,
                faults[0] is None,
                faults[1] == first_fault(discovery_faults),
                config_fault(*self) == first_fault(faults),
            decreases self.discovery.len() - i,
        {
            if let Err(error) = self.discovery[i].validate() {
                proof {
                    assert(discovery_faults[i as int] is Some);
                    lemma_first_fault_at(discovery_faults, i as int);
                    lemma_first_fault_at(faults, 1);
                }
                return Err(error);
            }
            i += 1;
        }
        proof {
            lemma_no_fault(discovery_faults);
        }
        let mut i: usize = 0;
        while i < self.streams.len()
            invariant
                i <= self.streams.len(),
                stream_faults == self.streams@.map_values(
                    |s: StreamConfig| stream_fault(s, self.targets@),
                ),
                forall|j: int| 0 <= j < i ==> #[trigger] stream_faults[j] is None,
                faults.len() == 6,
                faults[0] is None,
                faults[1] is None,
                faults[2] == first_fault(stream_faults),
                config_fault(*self) == first_fault(faults),
            decreases self.streams.len() - i,
        {
            if let Err(error) = self.streams[i].validate(&self.targets) {
                proof {
                    assert(stream_faults[i as int] is Some);
                    lemma_first_fault_at(stream_faults, i as int);
                    lemma_first_fault_at(faults, 2);
                }
                return Err(error);
            }
            i += 1;
        }
        proof {
            lemma_no_fault(stream_faults);
        }
        if let Some(name) = first_target_without_topic(&self.targets) {
            proof {
                let chosen = choose|name: Seq<char>| first_without_topic(self.targets@, name);
                lemma_first_without_topic_is_one(self.targets@, chosen, name@);
                lemma_first_fault_at(faults, 3);
            }
            return Err(
                ConfigError::Validation(
                    concat3("target `", name, "` must define a non-empty topic"),
                ),
            );
        }
        assert(faults[3] is None);
        if let Some(auth) = &self.kafka.auth {
            if is_blank(auth.username_env.as_str()) {
                proof {
                    lemma_first_fault_at(faults, 4);
                }
                return Err(
                    ConfigError::Validation(
                        "`kafka.auth.username_env` must define a non-empty env var name".to_owned(),
                    ),
                );
            }
            if is_blank(auth.password_env.as_str()) {
                proof {
                    lemma_first_fault_at(faults, 4);
                }
                return Err(
                    ConfigError::Validation(
                        "`kafka.auth.password_env` must define a non-empty env var name".to_owned(),
                    ),
                );
            }
        }
        assert(faults[4] is None);
        if let Some(default_topic) = &self.topic_mapping.default_topic {
            if is_blank(default_topic.as_str()) {
                proof {
                    lemma_first_fault_at(faults, 5);
                }
                return Err(
                    ConfigError::Validation(
                        "`topic_mapping.default_topic` must define a non-empty topic".to_owned(),
                    ),
                );
            }
        }
        proof {
            lemma_no_fault(faults);
        }
        Ok(())
    }

    /// Makes a configuration, as it was read from the file at `path`, ready for use: checks it,
    /// and fills in where the offsets are kept.
    pub fn accept(self, path: &str) -> (r: Result<BridgeConfig, ConfigError>)
        ensures
            match config_fault(self) {
                Some(message) => r matches Err(ConfigError::Validation(text)) && text@ == message,
                None => r is Ok && {
                    let config = r->Ok_0;
                    &&& config == (BridgeConfig { offset_store: config.offset_store, ..self })
                    &&& self.offset_store.path is Some ==> config == self
                    &&& config.offset_store.path is Some
                    &&& self.offset_store.path is None ==> stands_beside(
                        config.offset_store.path->0@,
                        path@,
                    )
                },
            },
    {
        let mut config = self;
        match config.validate() {
            Err(error) => Err(error),
            Ok(()) => {
                config.offset_store.resolve_default(path);
                Ok(config)
            },
        }
    }
}

impl ConfigError {
    /// The fault in words.
    pub open spec fn text(self) -> Seq<char> {
        match self {
            ConfigError::Read { path, .. } => "failed to read config file `"@ + path@ + "`"@,
            ConfigError::Parse { path, .. } => "failed to parse config file `"@ + path@ + "`"@,
            ConfigError::Validation(text) => text@,
        }
    }

    /// The fault in words.
    pub fn message(&self) -> (r: String)
        ensures
            r@ == self.text(),
    {
        match self {
            ConfigError::Read { path, .. } => concat3(
                "failed to read config file `",
                path.as_str(),
                "`",
            ),
            ConfigError::Parse { path, .. } => concat3(
                "failed to parse config file `",
                path.as_str(),
                "`",
            ),
            ConfigError::Validation(text) => text.clone(),
        }
    }
}

/// In a configuration without a fault every stream and every control stream has an absolute path,
/// and every target that a stream refers to exists and has a topic.
pub proof fn law_accepted_streams_can_be_opened(config: BridgeConfig)
    requires
        config_fault(config) is None,
    ensures
        forall|i: int|
            0 <= i < config.streams@.len() ==> path_fault((#[trigger] config.streams@[i]).path@) is None,
        forall|i: int|
            0 <= i < config.discovery@.len() ==> path_fault(
                (#[trigger] config.discovery@[i]).control_stream@,
            ) is None,
        forall|i: int|
            0 <= i < config.streams@.len() ==> match opt_view((#[trigger] config.streams@[i]).target) {
                Some(target) => config.targets@.contains_key(target) && !blank(
                    config.targets@[target].topic@,
                ),
                None => true,
            },
{
    let discovery_faults = config.discovery@.map_values(|d: DiscoveryConfig| discovery_fault(d));
    let stream_faults = config.streams@.map_values(
        |s: StreamConfig| stream_fault(s, config.targets@),
    );
    let faults = seq![
        if config.streams@.len() == 0 && config.discovery@.len() == 0 {
            Some("at least one `[[streams]]` or `[[discovery]]` entry is required"@)
        } else {
            None
        },
        first_fault(discovery_faults),
        first_fault(stream_faults),
        target_fault(config.targets@),
        auth_fault(config.kafka.auth),
        mapping_fault(config.topic_mapping),
    ];
    assert(config_fault(config) == first_fault(faults));
    lemma_faultless(faults, 1);
    lemma_faultless(faults, 2);
    lemma_faultless(faults, 3);
    assert(forall|name: Seq<char>| !#[trigger] lacks_topic(config.targets@, name));
    assert forall|i: int| 0 <= i < config.discovery@.len() implies path_fault(
        (#[trigger] config.discovery@[i]).control_stream@,
    ) is None by {
        lemma_faultless(discovery_faults, i);
        assert(discovery_faults[i] == discovery_fault(config.discovery@[i]));
    }
    assert forall|i: int| 0 <= i < config.streams@.len() implies stream_fault(
        #[trigger] config.streams@[i],
        config.targets@,
    ) is None by {
        lemma_faultless(stream_faults, i);
        assert(stream_faults[i] == stream_fault(config.streams@[i], config.targets@));
    }
    assert forall|i: int| 0 <= i < config.streams@.len() implies match opt_view(
        (#[trigger] config.streams@[i]).target,
    ) {
        Some(target) => config.targets@.contains_key(target) && !blank(
            config.targets@[target].topic@,
        ),
        None => true,
    } by {
        assert(stream_fault(config.streams@[i], config.targets@) is None);
        if let Some(target) = opt_view(config.streams@[i].target) {
            assert(!lacks_topic(config.targets@, target));
        }
    }
}

} // verus!
