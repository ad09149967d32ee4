//! File-name handling on path strings.

use vstd::prelude::*;

verus! {

/// The path ends in a `..` component: it is `..`, or ends in `/..`.
pub open spec fn ends_in_parent_dir(path: Seq<char>) -> bool {
    path == seq!['.', '.'] || (path.len() >= 3 && path.subrange(path.len() - 3, path.len() as int)
        == seq!['/', '.', '.'])
}

/// The path is a single plain component: not empty, free of the separators
/// and prefix marks of every platform (`/`, `\\`, `:`), and neither `.` nor
/// `..`.
pub open spec fn plain_component(path: Seq<char>) -> bool {
    &&& path.len() > 0
    &&& !path.contains('/')
    &&& !path.contains('\\')
    &&& !path.contains(':')
    &&& path != seq!['.']
    &&& path != seq!['.', '.']
}

/// `prefix` is what `file_prefix` keeps of the file name `name`: the name up
/// to its first `.` that is not the leading character, or the whole name.
pub open spec fn is_name_prefix(prefix: Seq<char>, name: Seq<char>) -> bool {
    &&& prefix.len() <= name.len()
    &&& prefix == name.take(prefix.len() as int)
    &&& forall|i: int| 1 <= i < prefix.len() ==> prefix[i] != '.'
    &&& (prefix.len() == name.len() || (prefix.len() >= 1 && name[prefix.len() as int] == '.'))
}

/// The path holds neither `\\` nor `:`, so that on every platform it splits
/// into components at `/` alone.
pub open spec fn portable_path(path: Seq<char>) -> bool {
    !path.contains('\\') && !path.contains(':')
}

/// The contents of an optional string.
pub open spec fn opt_view(o: Option<String>) -> Option<Seq<char>> {
    match o {
        Some(s) => Some(s@),
        None => None,
    }
}

/// The final component of a path, as `std::path::Path::file_name` gives it.
pub uninterp spec fn path_file_name_of(path: Seq<char>) -> Option<Seq<char>>;

/// A path without its final component, as `std::path::Path::parent` gives it.
pub uninterp spec fn path_parent_of(path: Seq<char>) -> Option<Seq<char>>;

/// Calls `std::path::Path::file_name` on `path` and turns the name it returns
/// into a `String`.
///
/// Claimed of the result: it is `path_file_name_of(path)`, a function of the
/// path alone. A path that is a single plain component is its own final
/// component, so it comes back whole. Of a path that splits at `/` alone (no
/// `\\`, no `:`), a name that comes back is a non-empty component free of
/// `/`, and a path ending in `..` has none, as the documentation of
/// `file_name` says. Left unsaid: which component comes back otherwise, and
/// anything about paths with `\\` or `:`, whose splitting depends on the
/// platform (in a Windows verbatim path `/` is no separator).
#[verifier::external_body]
pub(crate) fn path_file_name(path: &str) -> (res: Option<String>)
    ensures
        opt_view(res) == path_file_name_of(path@),
        plain_component(path@) ==> res is Some && res->0@ == path@,
        portable_path(path@) && res is Some ==> res->0@.len() > 0 && !res->0@.contains('/'),
        portable_path(path@) && ends_in_parent_dir(path@) ==> res is None,
{
    match std::path::Path::new(path).file_name() {
        Some(name) => match name.to_str() {
            Some(text) => Some(text.to_string()),
            None => None,
        },
        None => None,
    }
}

/// Calls `std::path::Path::parent` on `path` and turns the path it returns
/// into a `String`.
///
/// Claimed of the result: it is `path_parent_of(path)`, a function of the
/// path alone. As the documentation of `parent` says, the empty path and the
/// root `/` have none, and a single plain component has the empty path as
/// its parent; a path that has a file name ends in a normal component, not in
/// a root or prefix, so it has a parent; and a parent is `path` without its
/// final component, so it is shorter. Left unsaid: where that component
/// begins otherwise, which depends on the platform's separator rules.
#[verifier::external_body]
pub(crate) fn path_parent(path: &str) -> (res: Option<String>)
    ensures
        opt_view(res) == path_parent_of(path@),
        path@.len() == 0 ==> res is None,
        path@ == seq!['/'] ==> res is None,
        plain_component(path@) ==> res is Some && res->0@.len() == 0,
        path_file_name_of(path@) is Some ==> res is Some,
        res matches Some(p) ==> p@.len() < path@.len(),
{
    match std::path::Path::new(path).parent() {
        Some(parent) => match parent.to_str() {
            Some(text) => Some(text.to_string()),
            None => None,
        },
        None => None,
    }
}

/// The directory in which a song's custom instrument sounds are looked for
/// first: the one the user named, else the directory that holds the song
/// file (the empty path for a bare file name; `None` where the song's path
/// has no parent, as the empty path).
pub fn instrument_base_dir(song_path: &str, custom_dir: Option<String>) -> (res: Option<String>)
    ensures
        custom_dir is Some ==> res == custom_dir,
        custom_dir is None ==> opt_view(res) == path_parent_of(song_path@),
        custom_dir is None && path_file_name_of(song_path@) is Some ==> res is Some,
        custom_dir is None && plain_component(song_path@) ==> res is Some && res->0@.len() == 0,
        custom_dir is None && song_path@.len() == 0 ==> res is None,
        custom_dir is None && song_path@ == seq!['/'] ==> res is None,
        custom_dir is None ==> (res matches Some(p) ==> p@.len() < song_path@.len()),
{
    match custom_dir {
        Some(dir) => Some(dir),
        None => path_parent(song_path),
    }
}

/// The part of a file name that `std::path::Path::file_prefix` keeps: the
/// name up to its first `.` that is not the leading character, or the whole
/// name where there is no such `.`.
pub fn name_prefix(name: &str) -> (res: String)
    ensures
        res@.len() <= name@.len(),
        res@ == name@.take(res@.len() as int),
        forall|i: int| 1 <= i < res@.len() ==> res@[i] != '.',
        res@.len() == name@.len() || (res@.len() >= 1 && name@[res@.len() as int] == '.'),
{
    let n = name.unicode_len();
    let mut i: usize = 1;
    while i < n
        invariant
            n == name@.len(),
            1 <= i,
            forall|j: int| 1 <= j < i && j < n ==> name@[j] != '.',
        decreases n - i,
    {
        if name.get_char(i) == '.' {
            return String::from_str(name.substring_char(0, i));
        }
        i = i + 1;
    }
    String::from_str(name)
}

/// Two prefixes of the same file name in the sense of `is_name_prefix` are
/// the same: the prefix of a name is determined by the name.
pub proof fn name_prefix_unique(p: Seq<char>, q: Seq<char>, name: Seq<char>)
    requires
        is_name_prefix(p, name),
        is_name_prefix(q, name),
    ensures
        p == q,
{
    if p.len() < q.len() {
        assert(q[p.len() as int] == name[p.len() as int]);
        assert(p.len() >= 1);
    } else if q.len() < p.len() {
        assert(p[q.len() as int] == name[q.len() as int]);
        assert(q.len() >= 1);
    }
    assert(p =~= q);
}

/// The prefix of the file name of `path`, as `std::path::Path::file_prefix`
/// gives it: `None` where the path has no file name, else the name up to its
/// first `.` that is not its leading character.
pub fn file_prefix(path: &str) -> (res: Option<String>)
    ensures
        match (opt_view(res), path_file_name_of(path@)) {
            (Some(p), Some(name)) => is_name_prefix(p, name),
            (None, None) => true,
            _ => false,
        },
        plain_component(path@) ==> (res is Some && is_name_prefix(res->0@, path@)),
        portable_path(path@) && res is Some ==> res->0@.len() > 0 && !res->0@.contains('/'),
        portable_path(path@) && ends_in_parent_dir(path@) ==> res is None,
{
    match path_file_name(path) {
        Some(name) => {
            let prefix = name_prefix(name.as_str());
            Some(prefix)
        },
        None => None,
    }
}

} // verus!
