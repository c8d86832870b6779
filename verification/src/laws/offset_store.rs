//! What holds of the offsets that are kept.
use crate::offset_store::{
    directory_of, entry_map, open_outcome, save_steps, step_failure, temp_of, SaveStepView,
    StoreErrorView, StoreView, StoredRead,
};
use crate::config::{stands_beside, OFFSET_STORE_NAME};
use crate::paths::{adds_nothing, ends_in, in_directory, names_in, stands_in};
use crate::types::offset::{law_offset_preserves_text, OffsetView};
use crate::transport::pair_views;
use vstd::prelude::*;
use vstd::string::*;

verus! {

/// The offset of a stream is the text that is kept for it, and there is none exactly where none is
/// kept.
pub proof fn law_loaded(store: StoreView, path: Seq<char>)
    ensures
        store.loaded(path) is Some <==> store.streams.contains_key(path),
        store.loaded(path) matches Some(offset) ==> offset.text() == store.streams[path] && offset
            == OffsetView::of_text(store.streams[path]),
{
    if store.streams.contains_key(path) {
        law_offset_preserves_text(store.streams[path]);
    }
}

/// To save an offset is to keep its text for the stream, in the place of what was kept for it
/// before, and to leave all else as it is.
pub proof fn law_saved(
    store: StoreView,
    path: Seq<char>,
    offset: OffsetView,
    other: Seq<char>,
)
    ensures
        ({
            let next = store.saved(path, offset);
            &&& next.path == store.path
            &&& next.streams.contains_key(path) && next.streams[path] == offset.text()
            &&& other != path ==> (next.streams.contains_key(other)
                <==> store.streams.contains_key(other))
            &&& other != path && store.streams.contains_key(other) ==> next.streams[other]
                == store.streams[other]
        }),
{
}

/// Of the entries for one stream the last one counts, and a stream without an entry has no offset.
pub proof fn law_last_entry_counts(
    entries: Seq<(Seq<char>, Seq<char>)>,
    at: int,
    path: Seq<char>,
)
    ensures
        0 <= at < entries.len() && entries[at].0 == path && (forall|i: int|
            at < i < entries.len() ==> (#[trigger] entries[i]).0 != path) ==> entry_map(
            entries,
        ).contains_key(path) && entry_map(entries)[path] == entries[at].1,
        (forall|i: int| 0 <= i < entries.len() ==> (#[trigger] entries[i]).0 != path)
            ==> !entry_map(entries).contains_key(path),
    decreases entries.len(),
{
    if entries.len() > 0 {
        let rest = entries.drop_last();
        law_last_entry_counts(rest, at, path);
        assert(forall|i: int| 0 <= i < rest.len() ==> #[trigger] rest[i] == entries[i]);
        assert(entries[entries.len() - 1] == entries.last());
    }
}

/// A file that is not there is an empty store, and one that holds entries a store with them. One
/// that cannot be read, and one that holds something else, are told apart.
pub proof fn law_opened(path: Seq<char>, read: StoredRead)
    ensures
        match read {
            StoredRead::NotFound => open_outcome(path, read) matches Ok(store) && store.path == path
                && store.streams == Map::<Seq<char>, Seq<char>>::empty(),
            StoredRead::Entries(entries) => open_outcome(path, read) matches Ok(store) && store.path
                == path && store.streams == entry_map(pair_views(entries@)),
            StoredRead::Malformed(source) => open_outcome(path, read) == Err::<
                StoreView,
                StoreErrorView,
            >(StoreErrorView::Parse { path, source: source@ }),
            StoredRead::Failed(source) => open_outcome(path, read) == Err::<
                StoreView,
                StoreErrorView,
            >(StoreErrorView::Read { path, source: source@ }),
        },
{
}

/// First the directory is made, if there is one; then the new file is written under another name,
/// and last it takes the place of the old one.
pub proof fn law_order_of_the_steps(
    path: Seq<char>,
    parent: Option<Seq<char>>,
    temp: Seq<char>,
)
    ensures
        ({
            let steps = save_steps(path, parent, temp);
            let first: int = if parent is Some {
                1
            } else {
                0
            };
            &&& steps.len() == first + 2
            &&& parent matches Some(dir) ==> steps[0] == (SaveStepView::CreateDir { path: dir })
            &&& steps[first] == (SaveStepView::Write { path: temp })
            &&& steps[first + 1] == (SaveStepView::Rename { from: temp, to: path })
        }),
{
}

/// A step that fails is reported as what it was, with where it was taken and the reason.
pub proof fn law_failed_steps_are_told_apart(
    path: Seq<char>,
    to: Seq<char>,
    source: Seq<char>,
)
    ensures
        step_failure(SaveStepView::CreateDir { path }, source) == (StoreErrorView::CreateDir {
            path,
            source,
        }),
        step_failure(SaveStepView::Write { path }, source) == (StoreErrorView::Write {
            path,
            source,
        }),
        step_failure(SaveStepView::Rename { from: path, to }, source) == (StoreErrorView::Rename {
            from: path,
            to,
            source,
        }),
{
}

/// Whether the texts are a directory and a name in it, both as they are usually written.
pub open spec fn ordinary(dir: Seq<char>, name: Seq<char>) -> bool {
    &&& dir.len() > 0 && dir.last() != '/' && dir.last() != '.'
    &&& !dir.contains('\\') && !(dir.len() >= 2 && dir[0] == '/' && dir[1] == '/') && !(dir.len()
        >= 2 && dir[1] == ':')
    &&& name.len() >= 3 && name[1] != ':' && !name.contains('/') && !name.contains('\\')
}

proof fn lemma_ordinary(dir: Seq<char>, name: Seq<char>)
    requires
        ordinary(dir, name),
    ensures
        ends_in(dir + seq!['/'] + name, dir, name),
        names_in(dir + seq!['/'] + name, dir, name),
        crate::paths::plain_name(name),
{
    reveal_strlit(".");
    reveal_strlit("..");
    assert("."@.len() == 1 && ".."@.len() == 2);
    let path = dir + seq!['/'] + name;
    let from: int = dir.len() + 1int;
    let to = path.len() as int;
    assert(path.subrange(from, to) =~= name);
    assert(path.take(dir.len() as int) =~= dir);
    assert(path.subrange(dir.len() as int, from) =~= seq!['/']);
    assert(path.skip(to) =~= Seq::empty());
    assert(adds_nothing(path.skip(to)));
    if path.contains('\\') {
        let i = path.index_of('\\');
        if i < dir.len() {
            assert(dir[i] == '\\');
        } else if i > dir.len() {
            assert(name[i - dir.len() - 1] == '\\');
        }
    }
    assert(path[0] == dir[0]);
    assert(path[1] == if dir.len() >= 2 {
        dir[1]
    } else {
        '/'
    });
    if dir.len() == 1 {
        assert(dir[0] == dir.last());
    }
    assert(dir != seq!['/']) by {
        if dir == seq!['/'] {
            assert(dir.last() == '/');
        }
    }
    assert(stands_in(path, dir, from));
}

/// The file that is written first stands in the directory of the file itself, under its name with
/// an ending, and that directory is the one that is made first.
pub proof fn law_files_stand_side_by_side(
    dir: Seq<char>,
    name: Seq<char>,
    parent: Option<Seq<char>>,
    temp: Seq<char>,
)
    requires
        ordinary(dir, name),
        directory_of(dir + seq!['/'] + name, parent),
        temp_of(dir + seq!['/'] + name, temp),
    ensures
        parent == Some(dir),
        temp == dir + seq!['/'] + name + ".tmp"@ || temp == dir + seq!['\\'] + name + ".tmp"@,
{
    let path = dir + seq!['/'] + name;
    assert(parent == Some(dir) && in_directory(temp, dir, name + ".tmp"@)) by {
        lemma_ordinary(dir, name);
        assert(ends_in(path, dir, name));
        assert(names_in(path, dir, name));
    }
    lemma_in_directory(temp, dir, name, ".tmp"@);
}

proof fn lemma_in_directory(path: Seq<char>, dir: Seq<char>, name: Seq<char>, ending: Seq<char>)
    requires
        in_directory(path, dir, name + ending),
        dir.len() > 0,
        dir.last() != '/',
    ensures
        path == dir + seq!['/'] + name + ending || path == dir + seq!['\\'] + name + ending,
{
    assert(dir + seq!['/'] + (name + ending) =~= dir + seq!['/'] + name + ending);
    assert(dir + seq!['\\'] + (name + ending) =~= dir + seq!['\\'] + name + ending);
}

/// A store without a path is written first under a name of its own.
pub proof fn law_store_without_a_path(temp: Seq<char>, parent: Option<Seq<char>>)
    requires
        temp_of(Seq::empty(), temp),
        directory_of(Seq::empty(), parent),
    ensures
        temp == "offsets.json"@ + ".tmp"@,
        parent is None,
{
    let none = Seq::<char>::empty();
    assert(crate::paths::is_bare(none));
    assert(crate::paths::nameless(none));
    assert(none + ("offsets.json"@ + ".tmp"@) =~= "offsets.json"@ + ".tmp"@);
}

/// By default the store stands in the directory of the configuration file.
pub proof fn law_default_store(dir: Seq<char>, name: Seq<char>, store: Seq<char>)
    requires
        ordinary(dir, name),
        stands_beside(store, dir + seq!['/'] + name),
    ensures
        store == dir + seq!['/'] + ".durable-streams-kafka-bridge-offsets.json"@ || store == dir
            + seq!['\\'] + ".durable-streams-kafka-bridge-offsets.json"@,
{
    lemma_ordinary(dir, name);
    assert(in_directory(store, dir, OFFSET_STORE_NAME@));
}

} // verus!
