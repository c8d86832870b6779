//! What holds of the configuration.
use crate::config::{
    auth_fault, config_fault, configured_offset, default_directory, discovery_fault, first_fault,
    first_without_topic, lacks_topic, mapping_fault, reports, stream_fault, target_fault,
    BridgeConfig, ConfigError, DiscoveryConfig, KafkaAuthConfig, StreamConfig, TargetConfig,
    TopicMappingConfig,
};
use crate::laws::types::law_offset_texts;
use crate::text::blank;
use crate::text_map::{lemma_precedes_one_way, precedes};
use crate::types::offset::OffsetView;
use vstd::prelude::*;
use vstd::string::*;

verus! {

/// Whether a configured offset denotes the position: nothing, `start` and `-1` the start of the
/// stream, `now` its end, and any other text the value that it is.
pub open spec fn denotes(configured: Option<String>, offset: OffsetView) -> bool {
    match configured {
        None => offset is Start,
        Some(text) => {
            &&& text@ == "start"@ || text@ == "-1"@ <==> offset is Start
            &&& text@ == "now"@ <==> offset is Now
            &&& text@ != "start"@ && text@ != "-1"@ && text@ != "now"@ ==> offset
                == OffsetView::Value(text@)
        },
    }
}

/// A configured offset stands for the position that it denotes.
pub proof fn law_configured_offset(configured: Option<String>)
    ensures
        denotes(configured, configured_offset(configured)),
{
    reveal_strlit("start");
    reveal_strlit("-1");
    reveal_strlit("now");
    assert("start"@.len() == 5 && "-1"@.len() == 2 && "now"@.len() == 3);
    if let Some(text) = configured {
        law_offset_texts(text@);
    }
}

/// Whether a text is an absolute path.
pub open spec fn absolute(path: Seq<char>) -> bool {
    path.len() > 0 && path[0] == '/'
}

/// Whether a stream can be forwarded: its path is absolute, and the target that it refers to, if
/// it does, is one of the targets.
pub open spec fn usable_stream(
    stream: StreamConfig,
    targets: Map<Seq<char>, TargetConfig>,
) -> bool {
    absolute(stream.path@) && (stream.target is Some ==> targets.contains_key(stream.target->0@))
}

/// Whether a control stream can be followed: its path is absolute, and the field that holds the
/// paths of streams has a name.
pub open spec fn usable_discovery(discovery: DiscoveryConfig) -> bool {
    absolute(discovery.control_stream@) && !blank(discovery.path_field@)
}

/// Whether a configuration can be used: it names something to read, all streams and control
/// streams are usable, and each topic and each variable that it names has a name.
pub open spec fn usable(config: BridgeConfig) -> bool {
    &&& config.streams@.len() > 0 || config.discovery@.len() > 0
    &&& forall|i: int|
        0 <= i < config.discovery@.len() ==> usable_discovery(#[trigger] config.discovery@[i])
    &&& forall|i: int|
        0 <= i < config.streams@.len() ==> usable_stream(
            #[trigger] config.streams@[i],
            config.targets@,
        )
    &&& forall|name: Seq<char>| #[trigger]
        config.targets@.contains_key(name) ==> !blank(config.targets@[name].topic@)
    &&& config.kafka.auth is Some ==> !blank(config.kafka.auth->0.username_env@) && !blank(
        config.kafka.auth->0.password_env@,
    )
    &&& config.topic_mapping.default_topic is Some ==> !blank(
        config.topic_mapping.default_topic->0@,
    )
}

/// A stream is refused exactly where it cannot be forwarded.
pub proof fn law_stream_fault(stream: StreamConfig, targets: Map<Seq<char>, TargetConfig>)
    ensures
        stream_fault(stream, targets) is None <==> usable_stream(stream, targets),
        stream.path@.len() == 0 ==> stream_fault(stream, targets) == Some(
            "invalid stream path `"@ + stream.path@ + "` in config: "@ + ("invalid stream path `"@
                + stream.path@ + "`: "@ + "path cannot be empty"@),
        ),
        stream.path@.len() > 0 && stream.path@[0] != '/' ==> stream_fault(stream, targets) == Some(
            "invalid stream path `"@ + stream.path@ + "` in config: "@ + ("invalid stream path `"@
                + stream.path@ + "`: "@ + "path must start with `/`"@),
        ),
        absolute(stream.path@) && stream.target is Some && !targets.contains_key(
            stream.target->0@,
        ) ==> stream_fault(stream, targets) == Some(
            "stream `"@ + stream.path@ + "` references unknown target `"@ + stream.target->0@
                + "`"@,
        ),
{
}

/// A control stream is refused exactly where it cannot be followed. An empty path is reported
/// before one that is not absolute, and that before a field without a name.
pub proof fn law_discovery_fault(discovery: DiscoveryConfig)
    ensures
        discovery_fault(discovery) is None <==> usable_discovery(discovery),
        blank(discovery.control_stream@) ==> discovery_fault(discovery) == Some(
            "`discovery.control_stream` must be non-empty"@,
        ),
        absolute(discovery.control_stream@) && blank(discovery.path_field@) ==> discovery_fault(
            discovery,
        ) == Some("`discovery.path_field` must be non-empty"@),
{
    if absolute(discovery.control_stream@) {
        assert(!crate::text::is_white(discovery.control_stream@[0]));
    }
}

/// Targets are refused exactly where one of them has no topic.
pub proof fn law_target_fault(targets: Map<Seq<char>, TargetConfig>)
    ensures
        target_fault(targets) is None <==> forall|name: Seq<char>| #[trigger]
            targets.contains_key(name) ==> !blank(targets[name].topic@),
{
    if target_fault(targets) is None {
        assert forall|name: Seq<char>| #[trigger] targets.contains_key(name) implies !blank(
            targets[name].topic@,
        ) by {
            assert(!lacks_topic(targets, name));
        }
    }
    if forall|name: Seq<char>| #[trigger]
        targets.contains_key(name) ==> !blank(targets[name].topic@) {
        assert forall|name: Seq<char>| !#[trigger] lacks_topic(targets, name) by {
            if targets.contains_key(name) {
                assert(!blank(targets[name].topic@));
            }
        }
    }
}

/// Of the targets without a topic the first, in order, is reported.
pub proof fn law_first_target_is_reported(
    targets: Map<Seq<char>, TargetConfig>,
    name: Seq<char>,
)
    requires
        targets.contains_key(name),
        blank(targets[name].topic@),
        forall|other: Seq<char>| #[trigger]
            targets.contains_key(other) && blank(targets[other].topic@) ==> other == name
                || precedes(name, other),
    ensures
        target_fault(targets) == Some("target `"@ + name + "` must define a non-empty topic"@),
{
    assert(lacks_topic(targets, name));
    assert(first_without_topic(targets, name));
    let chosen = choose|name: Seq<char>| first_without_topic(targets, name);
    lemma_precedes_one_way(name, chosen);
}

/// A configuration is refused with the fault that is reported, and accepted where there is none.
pub proof fn law_reports(r: Result<(), ConfigError>, fault: Option<Seq<char>>)
    requires
        reports(r, fault),
    ensures
        fault is None <==> r is Ok,
        fault matches Some(message) ==> (r matches Err(ConfigError::Validation(text)) && text@
            == message),
{
}

/// A login is refused exactly where one of the two variables has no name, the one of the user
/// first.
pub proof fn law_auth_fault(auth: Option<KafkaAuthConfig>)
    ensures
        auth is None ==> auth_fault(auth) is None,
        auth is Some ==> (auth_fault(auth) is None <==> !blank(auth->0.username_env@) && !blank(
            auth->0.password_env@,
        )),
        auth is Some && blank(auth->0.username_env@) ==> auth_fault(auth) == Some(
            "`kafka.auth.username_env` must define a non-empty env var name"@,
        ),
        auth is Some && !blank(auth->0.username_env@) && blank(auth->0.password_env@)
            ==> auth_fault(auth) == Some(
            "`kafka.auth.password_env` must define a non-empty env var name"@,
        ),
{
}

/// A topic for all streams is refused exactly where it is blank.
pub proof fn law_mapping_fault(mapping: TopicMappingConfig)
    ensures
        mapping.default_topic is None ==> mapping_fault(mapping) is None,
        mapping.default_topic is Some ==> (mapping_fault(mapping) is None <==> !blank(
            mapping.default_topic->0@,
        )),
        mapping.default_topic is Some && blank(mapping.default_topic->0@) ==> mapping_fault(mapping)
            == Some("`topic_mapping.default_topic` must define a non-empty topic"@),
{
}

/// The first fault is one of the faults, and none stands before it; there is none exactly where
/// none of them is one.
pub proof fn law_first_fault(faults: Seq<Option<Seq<char>>>)
    ensures
        first_fault(faults) is None <==> forall|i: int|
            0 <= i < faults.len() ==> #[trigger] faults[i] is None,
        first_fault(faults) is Some ==> exists|i: int|
            0 <= i < faults.len() && #[trigger] faults[i] == first_fault(faults) && forall|j: int|
                0 <= j < i ==> #[trigger] faults[j] is None,
    decreases faults.len(),
{
    if faults.len() > 0 {
        let rest = faults.skip(1);
        law_first_fault(rest);
        if faults[0] is None {
            if first_fault(faults) is None {
                assert forall|i: int| 0 <= i < faults.len() implies #[trigger] faults[i] is None by {
                    if i > 0 {
                        assert(rest[i - 1] is None);
                    }
                }
            } else {
                let i = choose|i: int|
                    0 <= i < rest.len() && #[trigger] rest[i] == first_fault(rest) && forall|j: int|
                        0 <= j < i ==> #[trigger] rest[j] is None;
                assert(faults[i + 1] == first_fault(faults));
                assert forall|j: int| 0 <= j < i + 1 implies #[trigger] faults[j] is None by {
                    if j > 0 {
                        assert(rest[j - 1] is None);
                    }
                }
            }
        } else {
            assert(faults[0] == first_fault(faults));
        }
    }
}

/// A configuration is accepted exactly where it can be used.
pub proof fn law_accepted_exactly_where_usable(config: BridgeConfig)
    ensures
        config_fault(config) is None <==> usable(config),
{
    let discovery_faults = config.discovery@.map_values(|d: DiscoveryConfig| discovery_fault(d));
    let stream_faults = config.streams@.map_values(
        |s: StreamConfig| stream_fault(s, config.targets@),
    );
    let faults = seq![
        if config.streams@.len() == 0 && config.discovery@.len() == 0 {
            Some("at least one `[[streams]]` or `[[discovery]]` entry is required"@)
        } else {
            None
        },
        first_fault(discovery_faults),
        first_fault(stream_faults),
        target_fault(config.targets@),
        auth_fault(config.kafka.auth),
        mapping_fault(config.topic_mapping),
    ];
    assert(config_fault(config) == first_fault(faults));
    law_first_fault(faults);
    law_first_fault(discovery_faults);
    law_first_fault(stream_faults);
    law_target_fault(config.targets@);
    law_auth_fault(config.kafka.auth);
    law_mapping_fault(config.topic_mapping);
    assert forall|i: int| 0 <= i < config.discovery@.len() implies (
    #[trigger] discovery_faults[i] is None <==> usable_discovery(config.discovery@[i])) by {
        law_discovery_fault(config.discovery@[i]);
    }
    assert forall|i: int| 0 <= i < config.streams@.len() implies (
    #[trigger] stream_faults[i] is None <==> usable_stream(config.streams@[i], config.targets@))
        by {
        law_stream_fault(config.streams@[i], config.targets@);
    }
    if usable(config) {
        assert forall|i: int| 0 <= i < discovery_faults.len() implies #[trigger] discovery_faults[i]
            is None by {
            assert(usable_discovery(config.discovery@[i]));
        }
        assert forall|i: int| 0 <= i < stream_faults.len() implies #[trigger] stream_faults[i]
            is None by {
            assert(usable_stream(config.streams@[i], config.targets@));
        }
        assert forall|i: int| 0 <= i < faults.len() implies #[trigger] faults[i] is None by {}
    }
    if config_fault(config) is None {
        assert(faults[0] is None && faults[1] is None && faults[2] is None && faults[3] is None
            && faults[4] is None && faults[5] is None);
        assert forall|i: int| 0 <= i < config.discovery@.len() implies usable_discovery(
            #[trigger] config.discovery@[i],
        ) by {
            assert(discovery_faults[i] is None);
        }
        assert forall|i: int| 0 <= i < config.streams@.len() implies usable_stream(
            #[trigger] config.streams@[i],
            config.targets@,
        ) by {
            assert(stream_faults[i] is None);
        }
    }
}

/// The faults of a configuration are reported in order: those of control streams, of streams, of
/// targets, of the login and of the topic for all streams, the first of each kind first.
pub proof fn law_faults_are_reported_in_order(config: BridgeConfig, i: int)
    requires
        config.streams@.len() > 0 || config.discovery@.len() > 0,
    ensures
        ({
            let discovery_is_usable = forall|j: int|
                0 <= j < config.discovery@.len() ==> usable_discovery(
                    #[trigger] config.discovery@[j],
                );
            let streams_are_usable = forall|j: int|
                0 <= j < config.streams@.len() ==> usable_stream(
                    #[trigger] config.streams@[j],
                    config.targets@,
                );
            &&& 0 <= i < config.discovery@.len() && !usable_discovery(config.discovery@[i]) && (
            forall|j: int| 0 <= j < i ==> usable_discovery(#[trigger] config.discovery@[j]))
                ==> config_fault(config) == discovery_fault(config.discovery@[i])
            &&& discovery_is_usable && 0 <= i < config.streams@.len() && !usable_stream(
                config.streams@[i],
                config.targets@,
            ) && (forall|j: int|
                0 <= j < i ==> usable_stream(#[trigger] config.streams@[j], config.targets@))
                ==> config_fault(config) == stream_fault(config.streams@[i], config.targets@)
            &&& discovery_is_usable && streams_are_usable && target_fault(config.targets@) is Some
                ==> config_fault(config) == target_fault(config.targets@)
            &&& discovery_is_usable && streams_are_usable && target_fault(config.targets@) is None
                && auth_fault(config.kafka.auth) is Some ==> config_fault(config) == auth_fault(
                config.kafka.auth,
            )
            &&& discovery_is_usable && streams_are_usable && target_fault(config.targets@) is None
                && auth_fault(config.kafka.auth) is None ==> config_fault(config) == mapping_fault(
                config.topic_mapping,
            )
        }),
{
    let discovery_faults = config.discovery@.map_values(|d: DiscoveryConfig| discovery_fault(d));
    let stream_faults = config.streams@.map_values(
        |s: StreamConfig| stream_fault(s, config.targets@),
    );
    let faults = seq![
        None,
        first_fault(discovery_faults),
        first_fault(stream_faults),
        target_fault(config.targets@),
        auth_fault(config.kafka.auth),
        mapping_fault(config.topic_mapping),
    ];
    assert(config_fault(config) == first_fault(faults));
    assert forall|j: int| 0 <= j < config.discovery@.len() implies (
    #[trigger] discovery_faults[j] is None <==> usable_discovery(config.discovery@[j])) by {
        law_discovery_fault(config.discovery@[j]);
    }
    assert forall|j: int| 0 <= j < config.streams@.len() implies (
    #[trigger] stream_faults[j] is None <==> usable_stream(config.streams@[j], config.targets@))
        by {
        law_stream_fault(config.streams@[j], config.targets@);
    }
    law_first_fault(faults);
    if 0 <= i < config.discovery@.len() && !usable_discovery(config.discovery@[i]) && (forall|
        j: int,
    |
        0 <= j < i ==> usable_discovery(#[trigger] config.discovery@[j])) {
        assert forall|j: int| 0 <= j < i implies #[trigger] discovery_faults[j] is None by {
            assert(usable_discovery(config.discovery@[j]));
        }
        lemma_first_at(discovery_faults, i);
        lemma_first_at(faults, 1);
    }
    if forall|j: int|
        0 <= j < config.discovery@.len() ==> usable_discovery(#[trigger] config.discovery@[j]) {
        assert forall|j: int| 0 <= j < discovery_faults.len() implies #[trigger] discovery_faults[j]
            is None by {
            assert(usable_discovery(config.discovery@[j]));
        }
        law_first_fault(discovery_faults);
        if 0 <= i < config.streams@.len() && !usable_stream(config.streams@[i], config.targets@)
            && (forall|j: int|
            0 <= j < i ==> usable_stream(#[trigger] config.streams@[j], config.targets@)) {
            assert forall|j: int| 0 <= j < i implies #[trigger] stream_faults[j] is None by {
                assert(usable_stream(config.streams@[j], config.targets@));
            }
            lemma_first_at(stream_faults, i);
            lemma_first_at(faults, 2);
        }
        if forall|j: int|
            0 <= j < config.streams@.len() ==> usable_stream(
                #[trigger] config.streams@[j],
                config.targets@,
            ) {
            assert forall|j: int| 0 <= j < stream_faults.len() implies #[trigger] stream_faults[j]
                is None by {
                assert(usable_stream(config.streams@[j], config.targets@));
            }
            law_first_fault(stream_faults);
            if faults[3] is Some {
                lemma_first_at(faults, 3);
            } else if faults[4] is Some {
                lemma_first_at(faults, 4);
            } else if faults[5] is Some {
                lemma_first_at(faults, 5);
            }
        }
    }
}

proof fn lemma_first_at(faults: Seq<Option<Seq<char>>>, i: int)
    requires
        0 <= i < faults.len(),
        faults[i] is Some,
        forall|j: int| 0 <= j < i ==> #[trigger] faults[j] is None,
    ensures
        first_fault(faults) == faults[i],
{
    law_first_fault(faults);
    assert(!(faults[i] is None));
    let k = choose|k: int|
        0 <= k < faults.len() && #[trigger] faults[k] == first_fault(faults) && forall|j: int|
            0 <= j < k ==> #[trigger] faults[j] is None;
    assert(k == i) by {
        if k < i {
            assert(faults[k] is None);
        } else if i < k {
            assert(faults[i] is None);
        }
    }
}

/// A configuration that names nothing to read is refused first of all.
pub proof fn law_empty_configurations_are_refused(config: BridgeConfig)
    requires
        config.streams@.len() == 0,
        config.discovery@.len() == 0,
    ensures
        config_fault(config) == Some(
            "at least one `[[streams]]` or `[[discovery]]` entry is required"@,
        ),
{
}

/// Without a directory the current one is meant.
pub proof fn law_default_directory(parent: Option<Seq<char>>)
    ensures
        parent is Some ==> default_directory(parent) == parent->0,
        parent is None ==> default_directory(parent) == "."@,
{
}

} // verus!
