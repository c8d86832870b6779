//! What holds of topics and keys.
use crate::config::TargetConfig;
use crate::laws::text::law_slashes_around_are_cut_off;
use crate::text::{blank, without_outer_slashes};
use crate::topic::{as_topic_char, derived_topic, record_key, resolved_topic, topic_text};
use crate::types::offset::OffsetView;
use vstd::prelude::*;
use vstd::string::*;

verus! {

/// Whether the character is a letter or a digit of ASCII, a dot, an underscore or a hyphen.
pub open spec fn allowed(c: char) -> bool {
    'a' <= c <= 'z' || 'A' <= c <= 'Z' || '0' <= c <= '9' || c == '.' || c == '_' || c == '-'
}

/// In a topic a slash becomes a dot, a character that is allowed stays, and any other becomes a
/// hyphen, each in its place.
pub proof fn law_characters_of_a_topic(text: Seq<char>, i: int)
    requires
        0 <= i < text.len(),
    ensures
        topic_text(text).len() == text.len(),
        text[i] == '/' ==> topic_text(text)[i] == '.',
        allowed(text[i]) ==> topic_text(text)[i] == text[i],
        !allowed(text[i]) && text[i] != '/' ==> topic_text(text)[i] == '-',
{
}

/// The topic that is derived from a path is the path without the slashes around it, in the
/// characters of a topic, behind a common prefix. A path of nothing but slashes has one of its
/// own.
pub proof fn law_derived_topic(before: Seq<char>, name: Seq<char>, behind: Seq<char>)
    requires
        forall|i: int| 0 <= i < before.len() ==> #[trigger] before[i] == '/',
        forall|i: int| 0 <= i < behind.len() ==> #[trigger] behind[i] == '/',
        name.len() > 0 ==> name[0] != '/' && name.last() != '/',
    ensures
        name.len() > 0 ==> derived_topic(before + name + behind) == "durable-streams."@ + topic_text(
            name,
        ),
        name.len() == 0 ==> derived_topic(before + name + behind) == "durable-streams.stream"@,
{
    reveal_strlit("durable-streams");
    reveal_strlit("durable-streams.");
    reveal_strlit("durable-streams.stream");
    reveal_strlit(".stream");
    let path = before + name + behind;
    if name.len() > 0 {
        law_slashes_around_are_cut_off(before, name, behind);
        assert("durable-streams"@ + seq!['.'] =~= "durable-streams."@);
    } else {
        crate::laws::text::law_without_outer_slashes(path);
        let (from, to) = choose|from: int, to: int|
            {
                &&& 0 <= from <= to <= path.len()
                &&& without_outer_slashes(path) == #[trigger] path.subrange(from, to)
                &&& forall|i: int| 0 <= i < from || to <= i < path.len() ==> #[trigger] path[i]
                    == '/'
                &&& from < to ==> path[from] != '/' && path[to - 1] != '/'
            };
        if from < to {
            if from < before.len() {
                assert(path[from] == before[from]);
            } else {
                assert(path[from] == behind[from - before.len()]);
            }
        }
        assert(without_outer_slashes(path).len() == 0);
        assert("durable-streams"@ + ".stream"@ =~= "durable-streams.stream"@);
    }
}

/// Whether the text says something.
pub open spec fn given(text: Option<Seq<char>>) -> bool {
    text is Some && !blank(text->0)
}

/// The topic of a stream is the one given for it; else that of its target; else the one given for
/// all streams; else the derived one. A blank topic counts as none.
pub proof fn law_topic_of_a_stream(
    path: Seq<char>,
    own: Option<Seq<char>>,
    target: Option<Seq<char>>,
    targets: Map<Seq<char>, TargetConfig>,
    common: Option<Seq<char>>,
)
    ensures
        ({
            let topic = resolved_topic(path, own, target, targets, common);
            let named = target is Some && targets.contains_key(target->0);
            &&& given(own) ==> topic == own->0
            &&& !given(own) && named ==> topic == targets[target->0].topic@
            &&& !given(own) && !named && given(common) ==> topic == common->0
            &&& !given(own) && !named && !given(common) ==> topic == derived_topic(path)
        }),
{
}

/// A key is the path of the stream, a colon and the text of the offset.
pub proof fn law_key_of_a_record(path: Seq<char>, offset: OffsetView)
    ensures
        record_key(path, offset) == path + seq![':'] + offset.text(),
{
    reveal_strlit(":");
    assert(":"@ =~= seq![':']);
}

/// The character of a topic for each character.
pub proof fn law_topic_char(c: char)
    ensures
        allowed(c) ==> as_topic_char(c) == c,
        c == '/' ==> as_topic_char(c) == '.',
        !allowed(c) && c != '/' ==> as_topic_char(c) == '-',
{
}

} // verus!
