//! How far each stream has been forwarded.
use crate::bindings::{file_name_of, parent_of, sibling_of};
use crate::paths::{
    adds_nothing, ends_in, in_directory, is_bare, nameless, names_in, plain_name, stands_in,
};
use crate::text::{concat, concat3, opt_view, same_text};
use crate::text_map::{ascending, TextMap};
use crate::transport::pair_views;
use crate::types::offset::{law_offset_preserves_text, Offset, OffsetView};
use vstd::prelude::*;
use vstd::string::*;

verus! {

/// The offsets of the streams, and the file that keeps them.
#[derive(Debug)]
pub struct OffsetStore {
    path: String,
    streams: TextMap<String>,
}

/// What an [`OffsetStore`] stands for: the path of the file, and the text of the offset of each
/// stream.
#[verifier::ext_equal]
pub ghost struct StoreView {
    pub path: Seq<char>,
    pub streams: Map<Seq<char>, Seq<char>>,
}

impl View for OffsetStore {
    type V = StoreView;

    closed spec fn view(&self) -> StoreView {
        StoreView { path: self.path@, streams: self.streams@.map_values(|text: String| text@) }
    }
}

/// What came of reading the file of a store.
#[derive(Debug)]
pub enum StoredRead {
    /// The paths of streams and the texts of their offsets.
    Entries(Vec<(String, String)>),
    /// The file does not hold offsets.
    Malformed(String),
    /// There is no such file.
    NotFound,
    /// The file could not be read.
    Failed(String),
}

/// What can go wrong with the file of a store.
#[derive(Debug)]
pub enum OffsetStoreError {
    Read { path: String, source: String },
    Parse { path: String, source: String },
    CreateDir { path: String, source: String },
    Write { path: String, source: String },
    Rename { from: String, to: String, source: String },
    Serialize(String),
}

/// What an [`OffsetStoreError`] stands for.
pub ghost enum StoreErrorView {
    Read { path: Seq<char>, source: Seq<char> },
    Parse { path: Seq<char>, source: Seq<char> },
    CreateDir { path: Seq<char>, source: Seq<char> },
    Write { path: Seq<char>, source: Seq<char> },
    Rename { from: Seq<char>, to: Seq<char>, source: Seq<char> },
    Serialize(Seq<char>),
}

impl View for OffsetStoreError {
    type V = StoreErrorView;

    open spec fn view(&self) -> StoreErrorView {
        match self {
            OffsetStoreError::Read { path, source } => StoreErrorView::Read {
                path: path@,
                source: source@,
            },
            OffsetStoreError::Parse { path, source } => StoreErrorView::Parse {
                path: path@,
                source: source@,
            },
            OffsetStoreError::CreateDir { path, source } => StoreErrorView::CreateDir {
                path: path@,
                source: source@,
            },
            OffsetStoreError::Write { path, source } => StoreErrorView::Write {
                path: path@,
                source: source@,
            },
            OffsetStoreError::Rename { from, to, source } => StoreErrorView::Rename {
                from: from@,
                to: to@,
                source: source@,
            },
            OffsetStoreError::Serialize(source) => StoreErrorView::Serialize(source@),
        }
    }
}

impl StoreErrorView {
    /// The failure in words.
    pub open spec fn message(self) -> Seq<char> {
        match self {
            StoreErrorView::Read { path, .. } => "failed to read offset store `"@ + path + "`"@,
            StoreErrorView::Parse { path, .. } => "failed to parse offset store `"@ + path + "`"@,
            StoreErrorView::CreateDir { path, .. } => "failed to create directory `"@ + path + "`"@,
            StoreErrorView::Write { path, .. } => "failed to write offset store `"@ + path + "`"@,
            StoreErrorView::Rename { from, to, .. } => "failed to rename offset store from `"@
                + from + "` to `"@ + to + "`"@,
            StoreErrorView::Serialize(_) => "failed to serialize offset store"@,
        }
    }
}

impl OffsetStoreError {
    /// The failure in words.
    pub fn message(&self) -> (r: String)
        ensures
            r@ == self@.message(),
    {
        match self {
            OffsetStoreError::Read { path, .. } => concat3(
                "failed to read offset store `",
                path.as_str(),
                "`",
            ),
            OffsetStoreError::Parse { path, .. } => concat3(
                "failed to parse offset store `",
                path.as_str(),
                "`",
            ),
            OffsetStoreError::CreateDir { path, .. } => concat3(
                "failed to create directory `",
                path.as_str(),
                "`",
            ),
            OffsetStoreError::Write { path, .. } => concat3(
                "failed to write offset store `",
                path.as_str(),
                "`",
            ),
            OffsetStoreError::Rename { from, to, .. } => {
                let mut text = concat3(
                    "failed to rename offset store from `",
                    from.as_str(),
                    "` to `",
                );
                text.append(to.as_str());
                text.append("`");
                text
            },
            OffsetStoreError::Serialize(_) => "failed to serialize offset store".to_owned(),
        }
    }
}

/// The map that the entries make, where a later one replaces an earlier one of the same stream.
pub open spec fn entry_map(entries: Seq<(Seq<char>, Seq<char>)>) -> Map<Seq<char>, Seq<char>>
    decreases entries.len(),
{
    if entries.len() == 0 {
        Map::empty()
    } else {
        entry_map(entries.drop_last()).insert(entries.last().0, entries.last().1)
    }
}

/// The store that results from reading the file at `path`.
pub open spec fn open_outcome(path: Seq<char>, read: StoredRead) -> Result<
    StoreView,
    StoreErrorView,
> {
    match read {
        StoredRead::Entries(entries) => Ok(
            StoreView { path, streams: entry_map(pair_views(entries@)) },
        ),
        StoredRead::Malformed(source) => Err(StoreErrorView::Parse { path, source: source@ }),
        StoredRead::NotFound => Ok(StoreView { path, streams: Map::empty() }),
        StoredRead::Failed(source) => Err(StoreErrorView::Read { path, source: source@ }),
    }
}

/// The outcome `r`, seen through the views of its values.
pub open spec fn store_result(r: Result<OffsetStore, OffsetStoreError>) -> Result<
    StoreView,
    StoreErrorView,
> {
    match r {
        Ok(store) => Ok(store@),
        Err(error) => Err(error@),
    }
}

impl StoreView {
    /// The offset that is kept for the stream, if there is one.
    pub open spec fn loaded(self, stream_path: Seq<char>) -> Option<OffsetView> {
        if self.streams.contains_key(stream_path) {
            Some(OffsetView::of_text(self.streams[stream_path]))
        } else {
            None
        }
    }

    /// The store with the offset for the stream.
    pub open spec fn saved(self, stream_path: Seq<char>, offset: OffsetView) -> StoreView {
        StoreView { streams: self.streams.insert(stream_path, offset.text()), ..self }
    }
}

/// One step towards a new file.
#[derive(Debug, PartialEq, Eq)]
pub enum SaveStep {
    /// Make the directory, and those that it is in.
    CreateDir { path: String },
    /// Write the entries of the store, as they are by then, to the file.
    Write { path: String },
    /// Give the file another name, at once.
    Rename { from: String, to: String },
}

/// What a [`SaveStep`] stands for.
pub ghost enum SaveStepView {
    CreateDir { path: Seq<char> },
    Write { path: Seq<char> },
    Rename { from: Seq<char>, to: Seq<char> },
}

impl View for SaveStep {
    type V = SaveStepView;

    open spec fn view(&self) -> SaveStepView {
        match self {
            SaveStep::CreateDir { path } => SaveStepView::CreateDir { path: path@ },
            SaveStep::Write { path } => SaveStepView::Write { path: path@ },
            SaveStep::Rename { from, to } => SaveStepView::Rename { from: from@, to: to@ },
        }
    }
}

/// The views of the steps, in order.
pub open spec fn step_views(steps: Seq<SaveStep>) -> Seq<SaveStepView> {
    steps.map_values(|step: SaveStep| step@)
}

/// The steps towards a new file at `path`: the directory `parent`, if there is one, comes first;
/// then the file is written under the name `temp`, and renamed only after that.
pub open spec fn save_steps(path: Seq<char>, parent: Option<Seq<char>>, temp: Seq<char>) -> Seq<
    SaveStepView,
> {
    let writing = seq![
        SaveStepView::Write { path: temp },
        SaveStepView::Rename { from: temp, to: path },
    ];
    match parent {
        Some(dir) => seq![SaveStepView::CreateDir { path: dir }] + writing,
        None => writing,
    }
}

/// Whether `temp` is the file that is written first: it is another one, and stands beside the one
/// at `path`, under the same name with an ending. A path without a name gets one.
pub open spec fn temp_of(path: Seq<char>, temp: Seq<char>) -> bool {
    &&& temp != path
    &&& nameless(path) ==> in_directory(temp, path, "offsets.json"@ + ".tmp"@)
    &&& forall|dir: Seq<char>, name: Seq<char>| #[trigger]
        names_in(path, dir, name) && plain_name(name) ==> in_directory(temp, dir, name + ".tmp"@)
}

/// Whether `parent` is the directory in which the last part of the path stands.
pub open spec fn directory_of(path: Seq<char>, parent: Option<Seq<char>>) -> bool {
    &&& is_bare(path) ==> parent is None
    &&& forall|dir: Seq<char>, last: Seq<char>| #[trigger]
        ends_in(path, dir, last) ==> parent == Some(dir)
}

/// Whether the steps put a new file in the place of the one at `path`, in its directory and by
/// way of a file beside it.
pub open spec fn replace_file(steps: Seq<SaveStepView>, path: Seq<char>) -> bool {
    exists|parent: Option<Seq<char>>, temp: Seq<char>|
        {
            &&& steps == #[trigger] save_steps(path, parent, temp)
            &&& directory_of(path, parent)
            &&& temp_of(path, temp)
        }
}

/// What came of a step.
#[derive(Debug)]
pub enum SaveOutcome {
    /// The step has been taken.
    Done,
    /// There is nothing to write, because the offsets could not be put into text.
    NoText(String),
    /// The step could not be taken.
    Failed(String),
}

/// The failure of the step.
pub open spec fn step_failure(step: SaveStepView, source: Seq<char>) -> StoreErrorView {
    match step {
        SaveStepView::CreateDir { path } => StoreErrorView::CreateDir { path, source },
        SaveStepView::Write { path } => StoreErrorView::Write { path, source },
        SaveStepView::Rename { from, to } => StoreErrorView::Rename { from, to, source },
    }
}

impl SaveStep {
    /// Decides whether the steps after this one are to be taken, and with which failure the offset
    /// is not kept if not.
    pub fn taken(&self, outcome: SaveOutcome) -> (r: Result<(), OffsetStoreError>)
        ensures
            match outcome {
                SaveOutcome::Done => r is Ok,
                SaveOutcome::NoText(source) => r is Err && r->Err_0@ == StoreErrorView::Serialize(
                    source@,
                ),
                SaveOutcome::Failed(source) => r is Err && r->Err_0@ == step_failure(
                    self@,
                    source@,
                ),
            },
    {
        match outcome {
            SaveOutcome::Done => Ok(()),
            SaveOutcome::NoText(source) => Err(OffsetStoreError::Serialize(source)),
            SaveOutcome::Failed(source) => Err(self.failed(source)),
        }
    }

    /// The failure of the step.
    pub fn failed(&self, source: String) -> (r: OffsetStoreError)
        ensures
            r@ == step_failure(self@, source@),
    {
        match self {
            SaveStep::CreateDir { path } => OffsetStoreError::CreateDir {
                path: path.clone(),
                source,
            },
            SaveStep::Write { path } => OffsetStoreError::Write { path: path.clone(), source },
            SaveStep::Rename { from, to } => OffsetStoreError::Rename {
                from: from.clone(),
                to: to.clone(),
                source,
            },
        }
    }
}

/// The steps towards a new file at `path`, in the directory `parent`, if there is one, by way of
/// the file `temp`.
pub fn write_atomic(path: &str, parent: Option<String>, temp: String) -> (r: Vec<SaveStep>)
    ensures
        step_views(r@) == save_steps(path@, opt_view(parent), temp@),
{
    let ghost dir = opt_view(parent);
    let mut steps: Vec<SaveStep> = Vec::new();
    if let Some(parent) = parent {
        steps.push(SaveStep::CreateDir { path: parent });
    }
    steps.push(SaveStep::Write { path: temp.clone() });
    steps.push(SaveStep::Rename { from: temp, to: path.to_owned() });
    assert(step_views(steps@) =~= save_steps(path@, dir, temp@));
    steps
}

proof fn lemma_temp_name_is_plain(name: Seq<char>)
    requires
        plain_name(name),
    ensures
        plain_name(name + ".tmp"@),
{
    reveal_strlit(".tmp");
    reveal_strlit(".");
    reveal_strlit("..");
    let temp = name + ".tmp"@;
    assert(temp.len() == name.len() + 4);
    assert("."@.len() == 1 && ".."@.len() == 2);
    assert forall|c: char| temp.contains(c) && c != '.' && c != 't' && c != 'm' && c
        != 'p' implies #[trigger] name.contains(c) by {
        let i = temp.index_of(c);
        assert(temp[i] == c);
        if i < name.len() {
            assert(name[i] == c);
        } else {
            assert(".tmp"@[i - name.len()] == c);
        }
    }
}

/// The file that is written before it takes the place of the one at `path`: it stands beside it,
/// under the same name with an ending. Of a path that platforms read differently no more is said
/// than that it is another file.
pub fn temp_path(path: &str) -> (r: String)
    ensures
        temp_of(path@, r@),
{
    let file_name = match file_name_of(path) {
        Some(name) => name,
        None => "offsets.json".to_owned(),
    };
    let temp_name = concat(file_name.as_str(), ".tmp");
    proof {
        reveal_strlit("offsets.json");
        reveal_strlit(".tmp");
        reveal_strlit(".");
        reveal_strlit("..");
        assert("offsets.json"@.len() == 12 && "."@.len() == 1 && ".."@.len() == 2);
        lemma_temp_name_is_plain("offsets.json"@);
        assert forall|dir: Seq<char>, name: Seq<char>| #[trigger]
            names_in(path@, dir, name) && plain_name(name) implies plain_name(name + ".tmp"@) by {
            lemma_temp_name_is_plain(name);
        }
    }
    let temp = sibling_of(path, temp_name.as_str());
    proof {
        if nameless(path@) {
            assert(temp@ != path@);
        }
        assert forall|dir: Seq<char>, name: Seq<char>| #[trigger]
            names_in(path@, dir, name) && plain_name(name) implies temp@ != path@ by {
            lemma_ending_makes_another(path@, dir, name, temp@);
        }
    }
    if same_text(temp.as_str(), path) {
        let other = concat(path, ".tmp");
        assert(other@.len() == path@.len() + 4);
        return other;
    }
    temp
}

impl OffsetStore {
    /// The store at `path`, by what came of reading the file there. Where there is no file the
    /// store is empty.
    pub fn open(path: &str, read: StoredRead) -> (r: Result<OffsetStore, OffsetStoreError>)
        ensures
            store_result(r) == open_outcome(path@, read),
    {
        match read {
            StoredRead::Entries(entries) => {
                let mut streams: TextMap<String> = TextMap::new();
                let ghost pairs = pair_views(entries@);
                let mut i: usize = 0;
                assert(pairs.take(0) =~= Seq::empty());
                while i < entries.len()
                    invariant
                        i <= entries.len(),
                        pairs == pair_views(entries@),
                        streams@.map_values(|text: String| text@) =~= entry_map(
                            pairs.take(i as int),
                        ),
                    decreases entries.len() - i,
                {
                    let ghost before = streams@;
                    assert(pairs.take(i + 1).drop_last() =~= pairs.take(i as int));
                    let (stream_path, text) = &entries[i];
                    streams.insert(stream_path.clone(), text.clone());
                    i += 1;
                }
                assert(pairs.take(entries.len() as int) =~= pairs);
                Ok(OffsetStore { path: path.to_owned(), streams })
            },
            StoredRead::Malformed(source) => Err(
                OffsetStoreError::Parse { path: path.to_owned(), source },
            ),
            StoredRead::NotFound => {
                let r = OffsetStore { path: path.to_owned(), streams: TextMap::new() };
                assert(r@ =~= StoreView { path: path@, streams: Map::empty() });
                Ok(r)
            },
            StoredRead::Failed(source) => Err(
                OffsetStoreError::Read { path: path.to_owned(), source },
            ),
        }
    }

    /// The offset that is kept for the stream, if there is one.
    pub fn load(&self, stream_path: &str) -> (r: Option<Offset>)
        ensures
            (match r {
                Some(offset) => Some(offset@),
                None => None,
            }) == self@.loaded(stream_path@),
    {
        match self.streams.get(stream_path) {
            Some(text) => Some(Offset::from(text.as_str())),
            None => None,
        }
    }

    /// Keeps the offset for the stream, and tells what to do so that the file keeps it too. The
    /// steps are to be taken one after the other, up to the first that fails.
    pub fn save(&mut self, stream_path: &str, offset: &Offset) -> (r: Vec<SaveStep>)
        ensures
            final(self)@ == old(self)@.saved(stream_path@, offset@),
            replace_file(step_views(r@), old(self)@.path),
    {
        let ghost before = self.streams@;
        self.streams.insert(stream_path.to_owned(), offset.as_str().to_owned());
        assert(self@ =~= old(self)@.saved(stream_path@, offset@));
        let parent = parent_of(self.path.as_str());
        let temp = temp_path(self.path.as_str());
        let steps = write_atomic(self.path.as_str(), parent, temp);
        proof {
            assert(save_steps(old(self)@.path, opt_view(parent), temp@) == step_views(steps@));
        }
        steps
    }

    /// The streams and the texts of their offsets.
    pub fn entries(&self) -> (r: Vec<(String, String)>)
        ensures
            entry_map(pair_views(r@)) == self@.streams,
    {
        let count: usize = self.streams.len();
        let mut out: Vec<(String, String)> = Vec::new();
        let mut i: usize = 0;
        let ghost keys = self.streams.keys();
        while i < count
            invariant
                i <= count,
                count == keys.len(),
                keys == self.streams.keys(),
                ascending(keys),
                forall|key: Seq<char>|
                    #![trigger self.streams@.contains_key(key)]
                    self.streams@.contains_key(key) <==> keys.contains(key),
                forall|key: Seq<char>| #[trigger]
                    entry_map(pair_views(out@)).contains_key(key) <==> keys.take(i as int).contains(
                        key,
                    ),
                forall|key: Seq<char>| #[trigger]
                    entry_map(pair_views(out@)).contains_key(key) ==> entry_map(
                        pair_views(out@),
                    )[key] == self.streams@[key]@,
            decreases count - i,
        {
            let ghost before = pair_views(out@);
            let (stream_path, text) = self.streams.at(i);
            out.push((stream_path.to_owned(), text.clone()));
            proof {
                let now = pair_views(out@);
                assert(now.drop_last() =~= before);
                assert(now.last() == (stream_path@, text@));
                assert(keys.take(i + 1) =~= keys.take(i as int).push(stream_path@));
                assert forall|key: Seq<char>| #[trigger]
                    entry_map(now).contains_key(key) <==> keys.take(i + 1).contains(key) by {
                    if keys.take(i as int).contains(key) {
                        let j = keys.take(i as int).index_of(key);
                        assert(keys.take(i + 1)[j] == key);
                    }
                    assert(keys.take(i + 1)[i as int] == stream_path@);
                    if keys.take(i + 1).contains(key) && key != stream_path@ {
                        let j = keys.take(i + 1).index_of(key);
                        assert(keys.take(i as int)[j] == key);
                    }
                    assert(entry_map(before).contains_key(key) <==> keys.take(i as int).contains(
                        key,
                    ));
                }
                assert forall|key: Seq<char>| #[trigger]
                    entry_map(now).contains_key(key) implies entry_map(now)[key]
                    == self.streams@[key]@ by {
                    if key != stream_path@ {
                        assert(entry_map(before).contains_key(key));
                    }
                }
            }
            i += 1;
        }
        proof {
            assert(keys.take(count as int) =~= keys);
            let made = entry_map(pair_views(out@));
            assert forall|key: Seq<char>|
                #![trigger made.dom().contains(key)]
                #![trigger self@.streams.dom().contains(key)]
                made.dom().contains(key) == self@.streams.dom().contains(key) by {
                assert(made.contains_key(key) <==> keys.take(count as int).contains(key));
                assert(self.streams@.contains_key(key) <==> keys.contains(key));
            }
            assert forall|key: Seq<char>| made.dom().contains(key) implies #[trigger] made[key]
                == self@.streams[key] by {
                assert(made.contains_key(key));
                assert(self.streams@.contains_key(key) <==> keys.contains(key));
            }
            assert(made =~= self@.streams);
        }
        out
    }

    /// The path of the file.
    #[must_use]
    pub fn path(&self) -> (r: &str)
        ensures
            r@ == self@.path,
    {
        self.path.as_str()
    }
}

/// What is kept for a stream is what was saved for it last, and saving for one stream leaves the
/// others alone.
pub proof fn law_load_gives_back_what_was_saved(
    store: StoreView,
    stream_path: Seq<char>,
    offset: OffsetView,
    other: Seq<char>,
)
    requires
        other != stream_path,
    ensures
        store.saved(stream_path, offset).loaded(stream_path) matches Some(kept) && kept.text()
            == offset.text(),
        store.saved(stream_path, offset).loaded(other) == store.loaded(other),
{
    law_offset_preserves_text(offset.text());
}

/// A store that is opened from the entries of another, at the same path, keeps the same offsets.
pub proof fn law_reopened_store_is_the_same(store: StoreView, entries: Vec<(String, String)>)
    requires
        entry_map(pair_views(entries@)) == store.streams,
    ensures
        open_outcome(store.path, StoredRead::Entries(entries)) == Ok::<StoreView, StoreErrorView>(
            store,
        ),
{
}

/// The file itself changes only by the last step, which puts a file in its place that has been
/// written before.
pub proof fn law_file_is_replaced_last(path: Seq<char>, parent: Option<Seq<char>>, temp: Seq<char>)
    requires
        temp != path,
    ensures
        ({
            let steps = save_steps(path, parent, temp);
            let last = steps.len() - 1;
            &&& steps[last] == (SaveStepView::Rename { from: temp, to: path })
            &&& steps[last - 1] == (SaveStepView::Write { path: temp })
            &&& forall|i: int|
                0 <= i < last ==> match #[trigger] steps[i] {
                    SaveStepView::Write { path: written } => written != path,
                    SaveStepView::Rename { .. } => false,
                    SaveStepView::CreateDir { .. } => true,
                }
        }),
{
}

proof fn lemma_ending_makes_another(
    path: Seq<char>,
    dir: Seq<char>,
    name: Seq<char>,
    temp: Seq<char>,
)
    requires
        names_in(path, dir, name),
        plain_name(name),
        in_directory(temp, dir, name + ".tmp"@),
    ensures
        temp != path,
{
    reveal_strlit(".tmp");
    let temp_name = name + ".tmp"@;
    lemma_temp_name_is_plain(name);
    let (from, to) = choose|from: int, to: int|
        {
            &&& 0 <= from <= to <= path.len() && #[trigger] path.subrange(from, to) == name
            &&& stands_in(path, dir, from)
            &&& adds_nothing(path.skip(to))
        };
    if temp == path {
        assert(temp.last() == 'p');
        if to < path.len() {
            assert(path.skip(to).last() == path.last());
        }
        if dir.len() > 0 {
            let start = temp.len() - temp_name.len();
            assert(start < from);
            assert(temp[from - 1] == temp_name[from - 1 - start]);
            assert(temp_name.contains(temp_name[from - 1 - start]));
            if dir == seq!['/'] {
                assert(path.take(from).last() == path[from - 1]);
            } else {
                assert(path.subrange(dir.len() as int, from).last() == path[from - 1]);
            }
        }
    }
}

/// What the steps leave at each path, where they write `bytes`.
pub open spec fn after_steps(
    files: Map<Seq<char>, Seq<u8>>,
    steps: Seq<SaveStepView>,
    bytes: Seq<u8>,
) -> Map<Seq<char>, Seq<u8>>
    decreases steps.len(),
{
    if steps.len() == 0 {
        files
    } else {
        let before = after_steps(files, steps.drop_last(), bytes);
        match steps.last() {
            SaveStepView::CreateDir { .. } => before,
            SaveStepView::Write { path } => before.insert(path, bytes),
            SaveStepView::Rename { from, to } => before.remove(from).insert(to, before[from]),
        }
    }
}

/// Whether both hold the same at the path.
pub open spec fn same_at(
    a: Map<Seq<char>, Seq<u8>>,
    b: Map<Seq<char>, Seq<u8>>,
    path: Seq<char>,
) -> bool {
    a.contains_key(path) == b.contains_key(path) && (a.contains_key(path) ==> a[path] == b[path])
}

/// The file is replaced as a whole. Once all steps are taken it holds what was to be written; as
/// long as one is left it holds what it held before, and that is so too where a file has been
/// written in part only.
pub proof fn law_file_is_replaced_as_a_whole(
    files: Map<Seq<char>, Seq<u8>>,
    steps: Seq<SaveStepView>,
    path: Seq<char>,
    bytes: Seq<u8>,
    taken: int,
    part: Seq<u8>,
)
    requires
        replace_file(steps, path),
        0 <= taken <= steps.len(),
    ensures
        ({
            let now = after_steps(files, steps.take(taken), bytes);
            &&& taken == steps.len() ==> now.contains_key(path) && now[path] == bytes
            &&& taken < steps.len() ==> same_at(now, files, path)
            &&& taken < steps.len() ==> match steps[taken] {
                SaveStepView::Write { path: written } => same_at(
                    now.insert(written, part),
                    files,
                    path,
                ),
                _ => true,
            }
        }),
{
    let (parent, temp) = choose|parent: Option<Seq<char>>, temp: Seq<char>|
        {
            &&& steps == #[trigger] save_steps(path, parent, temp)
            &&& directory_of(path, parent)
            &&& temp_of(path, temp)
        };
    reveal_with_fuel(after_steps, 4);
    assert(steps.take(1).drop_last() =~= steps.take(0));
    assert(steps.take(2).drop_last() =~= steps.take(1));
    if steps.len() == 3 {
        assert(steps.take(3).drop_last() =~= steps.take(2));
    }
}

} // verus!
