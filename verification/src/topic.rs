//! Which Kafka topic and key the records of a stream get.
use crate::config::{
    config_fault, law_accepted_streams_can_be_opened, BridgeConfig, TargetConfig,
    TopicMappingConfig,
};
use crate::text::{
    blank, chars_of, concat3, is_blank, is_white, opt_view, trim_slashes, without_outer_slashes,
};
use crate::text_map::TextMap;
use crate::types::offset::{Offset, OffsetView};
use vstd::prelude::*;
use vstd::string::*;

verus! {

/// What the configuration says of the topic of a stream.
pub struct TopicResolutionContext<'a> {
    pub explicit_topic: Option<&'a str>,
    pub target: Option<&'a str>,
    pub targets: &'a TextMap<TargetConfig>,
    pub topic_mapping: &'a TopicMappingConfig,
}

/// The text of the slice, if there is one.
pub open spec fn str_view(text: Option<&str>) -> Option<Seq<char>> {
    match text {
        Some(t) => Some(t@),
        None => None,
    }
}

/// The text unless it is blank.
pub open spec fn unless_blank(text: Option<Seq<char>>) -> Option<Seq<char>> {
    match text {
        Some(t) => if blank(t) {
            None
        } else {
            Some(t)
        },
        None => None,
    }
}

/// The topic of the target, if it is one of the targets.
pub open spec fn target_topic(target: Option<Seq<char>>, targets: Map<Seq<char>, TargetConfig>) -> Option<
    Seq<char>,
> {
    match target {
        Some(name) => if targets.contains_key(name) {
            Some(targets[name].topic@)
        } else {
            None
        },
        None => None,
    }
}

/// Whether Kafka allows the character in the name of a topic.
pub open spec fn topic_char(c: char) -> bool {
    ||| 'a' <= c <= 'z'
    ||| 'A' <= c <= 'Z'
    ||| '0' <= c <= '9'
    ||| c == '.'
    ||| c == '_'
    ||| c == '-'
}

/// The character that stands for `c` in the name of a topic.
pub open spec fn as_topic_char(c: char) -> char {
    if topic_char(c) {
        c
    } else if c == '/' {
        '.'
    } else {
        '-'
    }
}

/// The text with each character replaced by the one that stands for it in the name of a topic.
pub open spec fn topic_text(text: Seq<char>) -> Seq<char> {
    text.map_values(|c: char| as_topic_char(c))
}

/// The topic of a stream that none is given for.
pub open spec fn derived_topic(stream_path: Seq<char>) -> Seq<char> {
    let trimmed = without_outer_slashes(stream_path);
    if trimmed.len() == 0 {
        "durable-streams"@ + ".stream"@
    } else {
        "durable-streams"@ + seq!['.'] + topic_text(trimmed)
    }
}

/// The topic of a stream: the one given for it, or that of its target, or the one given for all
/// streams, or one derived from its path.
pub open spec fn resolved_topic(
    stream_path: Seq<char>,
    explicit_topic: Option<Seq<char>>,
    target: Option<Seq<char>>,
    targets: Map<Seq<char>, TargetConfig>,
    default_topic: Option<Seq<char>>,
) -> Seq<char> {
    match unless_blank(explicit_topic) {
        Some(topic) => topic,
        None => match target_topic(target, targets) {
            Some(topic) => topic,
            None => match unless_blank(default_topic) {
                Some(topic) => topic,
                None => derived_topic(stream_path),
            },
        },
    }
}

/// The topic of a stream: the one given for it, or that of its target, or the one given for all
/// streams, or one derived from its path.
#[must_use]
pub fn resolve_topic(stream_path: &str, context: &TopicResolutionContext<'_>) -> (r: String)
    ensures
        r@ == resolved_topic(
            stream_path@,
            str_view(context.explicit_topic),
            str_view(context.target),
            context.targets@,
            opt_view(context.topic_mapping.default_topic),
        ),
{
    if let Some(topic) = context.explicit_topic {
        if !is_blank(topic) {
            return topic.to_owned();
        }
    }
    if let Some(topic) = resolve_target_topic(context) {
        return topic;
    }
    if let Some(topic) = &context.topic_mapping.default_topic {
        if !is_blank(topic.as_str()) {
            return topic.clone();
        }
    }
    default_topic_for_stream(stream_path)
}

/// The topic of the target that the stream refers to.
fn resolve_target_topic(context: &TopicResolutionContext<'_>) -> (r: Option<String>)
    ensures
        opt_view(r) == target_topic(str_view(context.target), context.targets@),
{
    match context.target {
        Some(name) => match context.targets.get(name) {
            Some(target) => Some(target.topic.clone()),
            None => None,
        },
        None => None,
    }
}

/// The character that stands for `c` in the name of a topic.
fn map_topic_char(c: char) -> (r: char)
    ensures
        r == as_topic_char(c),
{
    if (c >= 'a' && c <= 'z') || (c >= 'A' && c <= 'Z') || (c >= '0' && c <= '9') || c == '.' || c
        == '_' || c == '-' {
        c
    } else if c == '/' {
        '.'
    } else {
        '-'
    }
}

/// `text` behind `prefix`, with each character replaced by the one that stands for it in the name
/// of a topic.
pub fn append_topic_text(prefix: String, text: &str) -> (r: String)
    ensures
        r@ == prefix@ + topic_text(text@),
{
    let chars = chars_of(text);
    let mut out = prefix;
    let mut i: usize = 0;
    assert(prefix@ + topic_text(text@.take(0)) =~= prefix@);
    while i < chars.len()
        invariant
            i <= chars.len(),
            chars@ == text@,
            out@ == prefix@ + topic_text(text@.take(i as int)),
        decreases chars.len() - i,
    {
        assert(topic_text(text@.take(i + 1)) =~= topic_text(text@.take(i as int)).push(
            as_topic_char(text@[i as int]),
        ));
        assert(prefix@ + topic_text(text@.take(i + 1)) =~= (prefix@ + topic_text(
            text@.take(i as int),
        )).push(as_topic_char(text@[i as int])));
        out.push(map_topic_char(chars[i]));
        i += 1;
    }
    assert(text@.take(chars.len() as int) =~= text@);
    out
}

/// The topic of a stream that none is given for: its path with dots for slashes, behind a common
/// prefix.
#[must_use]
pub fn default_topic_for_stream(stream_path: &str) -> (r: String)
    ensures
        r@ == derived_topic(stream_path@),
{
    let mut topic = "durable-streams".to_owned();
    let trimmed = trim_slashes(stream_path);
    if trimmed.as_str().is_empty() {
        topic.append(".stream");
        return topic;
    }
    topic.push('.');
    assert(topic@ =~= "durable-streams"@ + seq!['.']);
    append_topic_text(topic, trimmed.as_str())
}

/// The key of the record that ends at `next_offset`.
pub open spec fn record_key(stream_path: Seq<char>, next_offset: OffsetView) -> Seq<char> {
    stream_path + ":"@ + next_offset.text()
}

/// The key of the record that ends at `next_offset`.
#[must_use]
pub fn message_key(stream_path: &str, next_offset: &Offset) -> (r: String)
    ensures
        r@ == record_key(stream_path@, next_offset@),
{
    concat3(stream_path, ":", next_offset.as_str())
}

/// Whether the text is made of characters that Kafka allows in the name of a topic.
pub open spec fn topic_chars_only(text: Seq<char>) -> bool {
    forall|i: int| 0 <= i < text.len() ==> topic_char(#[trigger] text[i])
}

/// Each character that Kafka does not allow in the name of a topic is replaced by one that it
/// allows, and the others stay as they are.
pub proof fn law_topic_text(text: Seq<char>)
    ensures
        topic_chars_only(topic_text(text)),
        topic_chars_only(text) ==> topic_text(text) == text,
{
    if topic_chars_only(text) {
        assert(topic_text(text) =~= text);
    }
}

/// The topic that is derived from a path is made of characters that Kafka allows, and is not
/// blank.
pub proof fn law_derived_topic_is_allowed(stream_path: Seq<char>)
    ensures
        topic_chars_only(derived_topic(stream_path)),
        !blank(derived_topic(stream_path)),
{
    reveal_strlit("durable-streams");
    reveal_strlit(".stream");
    law_topic_text(without_outer_slashes(stream_path));
    let topic = derived_topic(stream_path);
    assert(topic[0] == 'd');
    assert(!is_white(topic[0]));
}

/// The topic given for a stream wins over that of its target, which wins over the one given for
/// all streams, which wins over the derived one.
pub proof fn law_topic_precedence(
    stream_path: Seq<char>,
    explicit_topic: Option<Seq<char>>,
    target: Option<Seq<char>>,
    targets: Map<Seq<char>, TargetConfig>,
    default_topic: Option<Seq<char>>,
)
    ensures
        ({
            let topic = resolved_topic(stream_path, explicit_topic, target, targets, default_topic);
            let explicit = unless_blank(explicit_topic);
            let named = target_topic(target, targets);
            let common = unless_blank(default_topic);
            &&& explicit is Some ==> topic == explicit->0
            &&& explicit is None && named is Some ==> topic == named->0
            &&& explicit is None && named is None && common is Some ==> topic == common->0
            &&& explicit is None && named is None && common is None ==> topic == derived_topic(
                stream_path,
            )
        }),
{
}

/// The records of one stream have the same key only where they end at the same offset.
pub proof fn law_keys_tell_offsets_apart(stream_path: Seq<char>, a: OffsetView, b: OffsetView)
    ensures
        record_key(stream_path, a) == record_key(stream_path, b) <==> a.text() == b.text(),
{
    let prefix = stream_path + ":"@;
    if record_key(stream_path, a) == record_key(stream_path, b) {
        assert(record_key(stream_path, a).skip(prefix.len() as int) =~= a.text());
        assert(record_key(stream_path, b).skip(prefix.len() as int) =~= b.text());
    }
}

/// In a configuration without a fault every stream has a topic that is not blank.
pub proof fn law_accepted_streams_have_topics(config: BridgeConfig, i: int)
    requires
        config_fault(config) is None,
        0 <= i < config.streams@.len(),
    ensures
        ({
            let stream = config.streams@[i];
            !blank(
                resolved_topic(
                    stream.path@,
                    opt_view(stream.topic),
                    opt_view(stream.target),
                    config.targets@,
                    opt_view(config.topic_mapping.default_topic),
                ),
            )
        }),
{
    law_accepted_streams_can_be_opened(config);
    law_derived_topic_is_allowed(config.streams@[i].path@);
}

} // verus!
