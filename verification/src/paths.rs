//! How the paths of files are read.
use vstd::prelude::*;

verus! {

/// Whether `text` reads the same as a path on every platform: it holds no backslash, and does not
/// start with a drive or with two slashes.
pub open spec fn portable_path(text: Seq<char>) -> bool {
    &&& !text.contains('\\')
    &&& !(text.len() >= 2 && text[1] == ':')
    &&& !(text.len() >= 2 && text[0] == '/' && text[1] == '/')
}

/// Whether the text starts as the paths do that Windows takes word for word.
pub open spec fn verbatim_path(text: Seq<char>) -> bool {
    &&& text.len() >= 3 && text[2] == '?'
    &&& text[0] == '\\' || text[0] == '/'
    &&& text[1] == '\\' || text[1] == '/'
}

/// Whether `name` is one part of a path that names a file or a directory.
pub open spec fn names_part(name: Seq<char>) -> bool {
    &&& name.len() > 0 && !name.contains('/') && !name.contains('\\')
    &&& name != "."@ && name != ".."@
}

/// Whether `name` is the name of a file or of a directory, and nothing more.
pub open spec fn plain_name(name: Seq<char>) -> bool {
    portable_path(name) && names_part(name)
}

/// Whether the text adds nothing to the path before it: slashes, behind which single dots may
/// stand.
pub open spec fn adds_nothing(text: Seq<char>) -> bool {
    &&& text.len() > 0 ==> text[0] == '/'
    &&& forall|i: int| 0 <= i < text.len() ==> #[trigger] text[i] == '/' || text[i] == '.'
    &&& forall|i: int, j: int|
        0 <= i < j < text.len() && j == i + 1 && #[trigger] text[i] == '.' ==> #[trigger] text[j]
            == '/'
}

/// Whether the text separates a directory from what is in it: it ends in a slash, and adds nothing
/// else.
pub open spec fn separates(text: Seq<char>) -> bool {
    text.len() > 0 && text.last() == '/' && adds_nothing(text)
}

/// Whether the text of a directory ends in the name of one: not in a slash, and not in a single
/// dot, unless it is nothing else.
pub open spec fn named_directory(dir: Seq<char>) -> bool {
    &&& dir.len() > 0 && dir.last() != '/'
    &&& dir == "."@ || !(dir.last() == '.' && (dir.len() == 1 || dir[dir.len() - 2] == '/'))
}

/// Whether the directory `dir` is what the path says before the position. It is the empty text
/// where nothing stands before it, and a slash where it is the root.
pub open spec fn stands_in(path: Seq<char>, dir: Seq<char>, at: int) -> bool {
    if dir.len() == 0 {
        at == 0
    } else if dir == seq!['/'] {
        separates(path.take(at))
    } else {
        &&& named_directory(dir) && dir.len() < at && path.take(dir.len() as int) == dir
        &&& separates(path.subrange(dir.len() as int, at))
    }
}

/// Whether `last` is the last part of the path and `dir` the directory that it stands in. A single
/// dot is a part only where the path is nothing else.
pub open spec fn ends_in(path: Seq<char>, dir: Seq<char>, last: Seq<char>) -> bool {
    &&& portable_path(path)
    &&& names_part(last) || last == ".."@ || (last == "."@ && dir.len() == 0)
    &&& exists|from: int, to: int|
        {
            &&& 0 <= from <= to <= path.len() && #[trigger] path.subrange(from, to) == last
            &&& stands_in(path, dir, from)
            &&& adds_nothing(path.skip(to))
        }
}

/// Whether the path has no parts: it is empty or the root.
pub open spec fn is_bare(path: Seq<char>) -> bool {
    portable_path(path) && adds_nothing(path)
}

/// Whether the path names something in the directory `dir` by its `name`.
pub open spec fn names_in(path: Seq<char>, dir: Seq<char>, name: Seq<char>) -> bool {
    names_part(name) && ends_in(path, dir, name)
}

/// Whether the path has no name at its end: it has no parts, or its last one is a dot or two.
pub open spec fn nameless(path: Seq<char>) -> bool {
    is_bare(path) || exists|dir: Seq<char>, last: Seq<char>| #[trigger]
        ends_in(path, dir, last) && !names_part(last)
}

/// Where the part of the text ends that is not followed by anything of note.
proof fn trimmed(text: Seq<char>) -> (r: int)
    ensures
        0 <= r <= text.len(),
        adds_nothing(text.skip(r)),
        r > 0 ==> text[r - 1] != '/',
        r > 1 ==> !(text[r - 1] == '.' && text[r - 2] == '/'),
    decreases text.len(),
{
    let n = text.len() as int;
    if n > 0 && text[n - 1] == '/' {
        let r = trimmed(text.take(n - 1));
        assert(text.skip(r) =~= text.take(n - 1).skip(r) + seq!['/']);
        r
    } else if n > 1 && text[n - 1] == '.' && text[n - 2] == '/' {
        let r = trimmed(text.take(n - 2));
        assert(text.skip(r) =~= text.take(n - 2).skip(r) + seq!['/', '.']);
        r
    } else {
        n
    }
}

/// A path that is not bare has a last part.
pub proof fn lemma_has_parts(path: Seq<char>)
    requires
        portable_path(path),
        !is_bare(path),
    ensures
        exists|dir: Seq<char>, last: Seq<char>| ends_in(path, dir, last),
{
    reveal_strlit(".");
    reveal_strlit("..");
    let to = trimmed(path);
    assert(path.skip(0) =~= path);
    let from = start_of_last(path, to);
    let last = path.subrange(from, to);
    assert(forall|i: int| 0 <= i < last.len() ==> #[trigger] last[i] == path[from + i]);
    if last == "."@ {
        assert("."@.len() == 1);
        assert("."@[0] == '.');
        assert(last[0] == path[to - 1]);
        assert(from == 0);
    }
    let before = path.take(from);
    let k = trimmed(before);
    let dir = if from == 0 {
        Seq::empty()
    } else if k == 0 {
        seq!['/']
    } else {
        path.take(k)
    };
    if from > 0 {
        let gap = before.skip(k);
        assert(before.last() == '/');
        assert(gap.last() == '/');
        assert(separates(gap));
        if k == 0 {
            assert(gap =~= path.take(from));
        } else {
            assert(gap =~= path.subrange(k, from));
            assert(dir.last() == path[k - 1]);
            if dir.len() == 1 && dir.last() == '.' {
                assert(dir =~= "."@);
            }
            assert(named_directory(dir));
        }
    }
    assert(stands_in(path, dir, from));
    assert(ends_in(path, dir, last));
}

/// Where the part of the path starts that ends at the position.
proof fn start_of_last(path: Seq<char>, to: int) -> (r: int)
    requires
        0 < to <= path.len(),
        path[to - 1] != '/',
    ensures
        0 <= r < to,
        r > 0 ==> path[r - 1] == '/',
        forall|i: int| r <= i < to ==> #[trigger] path[i] != '/',
    decreases to,
{
    if to == 1 || path[to - 2] == '/' {
        to - 1
    } else {
        start_of_last(path, to - 1)
    }
}

/// Whether `path` is `name` in the directory `dir`, with a separator between the two where the
/// directory does not end in one.
pub open spec fn in_directory(path: Seq<char>, dir: Seq<char>, name: Seq<char>) -> bool {
    if dir.len() == 0 || dir.last() == '/' {
        path == dir + name
    } else {
        path == dir + seq!['/'] + name || path == dir + seq!['\\'] + name
    }
}

/// Whether `path` is `name` behind the directory `dir`, with a separator between the two or
/// without one.
pub open spec fn adjoined(path: Seq<char>, dir: Seq<char>, name: Seq<char>) -> bool {
    path == dir + name || path == dir + seq!['/'] + name || path == dir + seq!['\\'] + name
}

/// Whether the path starts with the text and goes on behind it.
pub open spec fn starts_with(path: Seq<char>, start: Seq<char>) -> bool {
    start.len() < path.len() && path.take(start.len() as int) == start
}

} // verus!
