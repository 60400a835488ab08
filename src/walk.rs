//! Which entries of the source tree go into the archive, and under which name.
//!
//! The tree is walked from `.`; every path the walk yields starts with the
//! component `.`. An entry is rejected when its file name is the archive's own
//! file name, when its name begins with `.` (the root `.` itself excepted), or
//! when it lies at or beneath an excluded path. Paths and exclusions are
//! compared relative to the root, a leading `.` dropped from each, so the
//! exclusion `build` and the exclusion `./build` both cover `./build/a.txt`.
//! The walk never descends into a rejected directory.

use vstd::prelude::*;
use crate::paths::{PathParts, is_prefix, cur_dir, join_parts, rel_of};

verus! {

/// The view of an optional file name (`None` where the name is not valid UTF-8).
pub open spec fn name_view(name: Option<String>) -> Option<Seq<char>> {
    match name {
        Some(s) => Some(s@),
        None => None,
    }
}

/// The views of a list of paths.
pub open spec fn paths_view(paths: Seq<PathParts>) -> Seq<Seq<Seq<char>>> {
    paths.map_values(|p: PathParts| p@)
}

/// The name is known and equals `rhs`.
pub open spec fn name_equals(name: Option<Seq<char>>, rhs: Seq<char>) -> bool {
    name == Some(rhs)
}

/// The name is known and begins with `.`.
pub open spec fn is_dot_name(name: Option<Seq<char>>) -> bool {
    match name {
        Some(s) => s.len() > 0 && s[0] == '.',
        None => false,
    }
}

/// A hidden entry: a dot name on any path but `.` itself.
pub open spec fn hidden(path: Seq<Seq<char>>, name: Option<Seq<char>>) -> bool {
    path != cur_dir() && is_dot_name(name)
}

/// The path lies at or beneath one of the excluded paths, both taken
/// relative to the root.
pub open spec fn excluded(path: Seq<Seq<char>>, excludes: Seq<Seq<Seq<char>>>) -> bool {
    exists|i: int| 0 <= i < excludes.len() && is_prefix(rel_of(#[trigger] excludes[i]), rel_of(path))
}

/// The walk leaves out the entry at `path` with file name `name`.
pub open spec fn rejected(
    path: Seq<Seq<char>>,
    name: Option<Seq<char>>,
    zip_name: Seq<char>,
    excludes: Seq<Seq<Seq<char>>>,
) -> bool {
    name_equals(name, zip_name) || hidden(path, name) || excluded(path, excludes)
}

/// A model of the walk that the program runs with walkdir's `filter_entry`
/// and `walkdir_filter`: `path` is reached when the entry itself and each
/// directory on the way down from `.` are let through (a rejected directory
/// is never entered). The file name of each entry is its last component.
pub open spec fn reached(
    path: Seq<Seq<char>>,
    zip_name: Seq<char>,
    excludes: Seq<Seq<Seq<char>>>,
) -> bool {
    forall|k: int|
        1 <= k <= path.len() ==> !rejected(
            #[trigger] path.take(k),
            Some(path[k - 1]),
            zip_name,
            excludes,
        )
}

/// The name in the archive of the walk entry `path`: the path with its leading
/// `.` taken off, put under the folder `qualified`.
pub open spec fn archive_path_of(qualified: Seq<char>, path: Seq<Seq<char>>) -> Seq<char> {
    qualified + seq!['/'] + join_parts(path.subrange(1, path.len() as int))
}

/// Whether the file name is known and equals `rhs`.
pub fn is_filename_eq(filename: &Option<String>, rhs: &str) -> (r: bool)
    ensures
        r == name_equals(name_view(*filename), rhs@),
{
    match filename {
        Some(f) => {
            let other = rhs.to_owned();
            *f == other
        },
        None => false,
    }
}

/// Whether the entry is hidden: its name begins with `.` and it is not `.`.
pub fn is_hidden(path: &PathParts, filename: &Option<String>) -> (r: bool)
    ensures
        r == hidden(path@, name_view(*filename)),
{
    if path.is_cur_dir() {
        return false;
    }
    match filename {
        Some(f) => {
            let s = f.as_str();
            s.unicode_len() > 0 && s.get_char(0) == '.'
        },
        None => false,
    }
}

/// Whether the path lies at or beneath one of `excludes`, both taken relative
/// to the root.
pub fn is_in_excludes(path: &PathParts, excludes: &Vec<PathParts>) -> (r: bool)
    ensures
        r == excluded(path@, paths_view(excludes@)),
{
    let ghost ex = paths_view(excludes@);
    let mut i: usize = 0;
    while i < excludes.len()
        invariant
            0 <= i <= excludes.len(),
            ex == paths_view(excludes@),
            forall|j: int| 0 <= j < i ==> !is_prefix(rel_of(#[trigger] ex[j]), rel_of(path@)),
        decreases excludes.len() - i,
    {
        if path.starts_with_rel(&excludes[i]) {
            assert(is_prefix(rel_of(ex[i as int]), rel_of(path@)));
            return true;
        }
        i += 1;
    }
    false
}

/// Whether the walk leaves out an entry: the archive's own file, a hidden
/// entry, or one at or beneath an excluded path.
pub fn walkdir_filter(
    path: &PathParts,
    filename: &Option<String>,
    zip_file_name: &str,
    excludes: &Vec<PathParts>,
) -> (r: bool)
    ensures
        r == rejected(path@, name_view(*filename), zip_file_name@, paths_view(excludes@)),
{
    is_filename_eq(filename, zip_file_name) || is_hidden(path, filename) || is_in_excludes(
        path,
        excludes,
    )
}

/// What an archive entry holds.
#[derive(Clone, Copy, Debug, PartialEq, Eq, Structural)]
pub enum EntryKind {
    File,
    Directory,
}

/// One entry handed to the archive writer: its name in the archive and what
/// it holds.
pub struct ArchiveEntry {
    pub archive_path: String,
    pub kind: EntryKind,
}

/// The name in the archive of the walk entry `path`:
/// `<qualified>/<path without its leading ./>`.
pub fn archive_path(qualified: &str, path: &PathParts) -> (r: String)
    requires
        path@.len() >= 2,
        path@[0] == seq!['.'],
    ensures
        r@ == archive_path_of(qualified@, path@),
        r@.subrange(0, (qualified@.len() + 1) as int) == qualified@ + seq!['/'],
        r@.subrange((qualified@.len() + 1) as int, r@.len() as int) == join_parts(
            path@.subrange(1, path@.len() as int),
        ),
{
    let ghost p = path@;
    let sep = "/";
    proof {
        reveal_strlit("/");
    }
    let mut r = qualified.to_owned();
    r.append(sep);
    r.append(path.parts[1].as_str());
    proof {
        assert(p.subrange(1, 2) =~= seq![p[1]]);
    }
    let mut i: usize = 2;
    while i < path.parts.len()
        invariant
            p == path@,
            2 <= i <= p.len(),
            sep@ == seq!['/'],
            r@ == qualified@ + seq!['/'] + join_parts(p.subrange(1, i as int)),
        decreases p.len() - i,
    {
        proof {
            assert(p.subrange(1, i + 1).drop_last() =~= p.subrange(1, i as int));
        }
        r.append(sep);
        r.append(path.parts[i].as_str());
        i += 1;
    }
    proof {
        assert(p.subrange(1, p.len() as int) == p.subrange(1, i as int));
        let q = qualified@ + seq!['/'];
        assert(r@.subrange(0, (qualified@.len() + 1) as int) =~= q);
        assert(r@.subrange((qualified@.len() + 1) as int, r@.len() as int) =~= join_parts(
            p.subrange(1, p.len() as int),
        ));
    }
    r
}

/// The archive entry for the walk entry `path`: a file entry where the path
/// names a regular file, a directory entry otherwise.
pub fn archive_entry(qualified: &str, path: &PathParts, is_file: bool) -> (r: ArchiveEntry)
    requires
        path@.len() >= 2,
        path@[0] == seq!['.'],
    ensures
        r.archive_path@ == archive_path_of(qualified@, path@),
        r.kind == (if is_file {
            EntryKind::File
        } else {
            EntryKind::Directory
        }),
{
    let archive_path = archive_path(qualified, path);
    let kind = if is_file {
        EntryKind::File
    } else {
        EntryKind::Directory
    };
    ArchiveEntry { archive_path, kind }
}

/// A path that the walk from `.` can yield: its first component is `.`.
pub open spec fn walk_path(path: Seq<Seq<char>>) -> bool {
    path.len() >= 1 && path[0] == seq!['.']
}

/// In the model of the walk (`reached`), `path` is handed on to the archive:
/// it is reached and lies below the root (the root `.` itself is never an
/// entry).
pub open spec fn emitted(
    path: Seq<Seq<char>>,
    zip_name: Seq<char>,
    excludes: Seq<Seq<Seq<char>>>,
) -> bool {
    walk_path(path) && path.len() >= 2 && reached(path, zip_name, excludes)
}

/// In the walk model, no path at or beneath an excluded path (both taken
/// relative to the root) is emitted.
pub proof fn lemma_excluded_never_emitted(
    path: Seq<Seq<char>>,
    zip_name: Seq<char>,
    excludes: Seq<Seq<Seq<char>>>,
    i: int,
)
    requires
        0 <= i < excludes.len(),
        is_prefix(rel_of(excludes[i]), rel_of(path)),
    ensures
        !emitted(path, zip_name, excludes),
{
    if path.len() >= 1 {
        let k = path.len() as int;
        assert(path.take(k) =~= path);
        assert(excluded(path.take(k), excludes));
    }
}

/// In the walk model, once an entry is rejected nothing at or beneath it is
/// reached: the walk does no work inside a rejected directory.
pub proof fn lemma_rejected_prunes_subtree(
    path: Seq<Seq<char>>,
    zip_name: Seq<char>,
    excludes: Seq<Seq<Seq<char>>>,
    d: int,
)
    requires
        1 <= d <= path.len(),
        rejected(path.take(d), Some(path[d - 1]), zip_name, excludes),
    ensures
        !reached(path, zip_name, excludes),
{
}

/// In the walk model, an entry named like the archive's own file is never
/// emitted, wherever it stands in the tree.
pub proof fn lemma_output_never_emitted(
    path: Seq<Seq<char>>,
    zip_name: Seq<char>,
    excludes: Seq<Seq<Seq<char>>>,
)
    requires
        path.len() >= 1,
        path.last() == zip_name,
    ensures
        !emitted(path, zip_name, excludes),
{
    let k = path.len() as int;
    assert(path.take(k) =~= path);
    assert(name_equals(Some(path[k - 1]), zip_name));
}

/// In the walk model, a path through a dot-named entry below the root is
/// never emitted.
pub proof fn lemma_hidden_never_emitted(
    path: Seq<Seq<char>>,
    zip_name: Seq<char>,
    excludes: Seq<Seq<Seq<char>>>,
    k: int,
)
    requires
        1 <= k < path.len(),
        path[k].len() > 0,
        path[k][0] == '.',
    ensures
        !emitted(path, zip_name, excludes),
{
    let q = path.take(k + 1);
    assert(q.len() != cur_dir().len());
    assert(hidden(q, Some(path[k])));
    assert(rejected(q, Some(path[(k + 1) - 1]), zip_name, excludes));
}

} // verus!
