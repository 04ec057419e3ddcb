//! Paths are carried as strings; what `std::path` computes from them goes
//! through the trusted items below, each naming the result of one method.
use vstd::prelude::*;
use crate::lines::split_char;

verus! {

/// What `Path::parent` gives for a path, with the path's text as a string.
pub uninterp spec fn parent_of(p: Seq<char>) -> Option<Seq<char>>;

/// What `Path::file_name` gives for a path.
pub uninterp spec fn file_name_of(p: Seq<char>) -> Option<Seq<char>>;

/// Whether a file name has no extension in the sense of `Path::file_stem`:
/// it holds no dot, or its only dot is its first character.
pub open spec fn has_no_extension(n: Seq<char>) -> bool {
    let pieces = split_char(n, '.');
    pieces.len() == 1 || (pieces.len() == 2 && pieces[0].len() == 0)
}

/// The stem of a file name: the whole name when it has no extension,
/// otherwise the part before its last dot.
pub open spec fn stem_of_name(n: Seq<char>) -> Seq<char> {
    if has_no_extension(n) {
        n
    } else {
        n.take(n.len() - split_char(n, '.').last().len() - 1)
    }
}

/// The extension of a file name: none when it has no extension, otherwise
/// the part after its last dot.
pub open spec fn extension_of_name(n: Seq<char>) -> Option<Seq<char>> {
    if has_no_extension(n) {
        None
    } else {
        Some(split_char(n, '.').last())
    }
}

/// What `Path::file_stem` gives for a path, by its documented rule: none
/// without a file name, otherwise the stem of the file name.
pub open spec fn file_stem_of(p: Seq<char>) -> Option<Seq<char>> {
    match file_name_of(p) {
        Some(n) => Some(stem_of_name(n)),
        None => None,
    }
}

/// What `Path::extension` gives for a path, by its documented rule: none
/// without a file name, otherwise the extension of the file name.
pub open spec fn extension_of(p: Seq<char>) -> Option<Seq<char>> {
    match file_name_of(p) {
        Some(n) => extension_of_name(n),
        None => None,
    }
}

/// Whether a path is the empty path or a root (one or more slashes only).
pub open spec fn is_empty_or_root(p: Seq<char>) -> bool {
    forall|i: int| 0 <= i < p.len() ==> p[i] == '/'
}

/// What `Path::join` gives for a base path and a part.
pub uninterp spec fn joined(base: Seq<char>, part: Seq<char>) -> Seq<char>;

/// What `Path::starts_with` answers: whether `base` is a prefix of `p`
/// by whole components.
pub uninterp spec fn under(p: Seq<char>, base: Seq<char>) -> bool;

/// `Path::parent`: the path without its final component, or `None` for a
/// root, a prefix or the empty path. The contract names the result and
/// states that the empty path and a root have no parent; the other
/// component rules of `std::path` are not stated.
#[verifier::external_body]
pub(crate) fn path_parent(p: &str) -> (res: Option<String>)
    ensures
        match res {
            Some(q) => parent_of(p@) == Some(q@),
            None => parent_of(p@) is None,
        },
        is_empty_or_root(p@) ==> res is None,
{
    match std::path::Path::new(p).parent() {
        Some(q) => Some(q.to_string_lossy().into_owned()),
        None => None,
    }
}

/// `Path::file_name`: the final normal component, if any. Only the result
/// is named.
#[verifier::external_body]
pub(crate) fn path_file_name(p: &str) -> (res: Option<String>)
    ensures
        match res {
            Some(q) => file_name_of(p@) == Some(q@),
            None => file_name_of(p@) is None,
        },
{
    match std::path::Path::new(p).file_name() {
        Some(q) => Some(q.to_string_lossy().into_owned()),
        None => None,
    }
}

/// `Path::file_stem`: the file name without its extension, as its
/// documentation gives it from the file name.
#[verifier::external_body]
pub(crate) fn path_file_stem(p: &str) -> (res: Option<String>)
    ensures
        match res {
            Some(q) => file_stem_of(p@) == Some(q@),
            None => file_stem_of(p@) is None,
        },
{
    match std::path::Path::new(p).file_stem() {
        Some(q) => Some(q.to_string_lossy().into_owned()),
        None => None,
    }
}

/// `Path::extension`: the text after the last dot of the file name, if the
/// name has one that does not start it, as its documentation gives it.
#[verifier::external_body]
pub(crate) fn path_extension(p: &str) -> (res: Option<String>)
    ensures
        match res {
            Some(q) => extension_of(p@) == Some(q@),
            None => extension_of(p@) is None,
        },
{
    match std::path::Path::new(p).extension() {
        Some(q) => Some(q.to_string_lossy().into_owned()),
        None => None,
    }
}

/// `Path::join`: `part` appended to `base` with a separator, or `part`
/// alone when it is absolute. Only the result is named.
#[verifier::external_body]
pub(crate) fn path_join(base: &str, part: &str) -> (res: String)
    ensures
        res@ == joined(base@, part@),
{
    std::path::Path::new(base).join(part).to_string_lossy().into_owned()
}

/// `Path::starts_with`: whether `base` is a prefix of `p`, comparing whole
/// components. Only the result is named.
#[verifier::external_body]
pub(crate) fn path_starts_with(p: &str, base: &str) -> (res: bool)
    ensures
        res == under(p@, base@),
{
    std::path::Path::new(p).starts_with(base)
}

/// The text of the file name of `p`, or the empty string when it has none,
/// as `file_name().unwrap_or_default()` gives it.
pub open spec fn name_or_empty(p: Seq<char>) -> Seq<char> {
    match file_name_of(p) {
        Some(n) => n,
        None => Seq::empty(),
    }
}

/// The file name of `p`, or the empty string when it has none.
pub fn file_name_or_empty(p: &str) -> (res: String)
    ensures
        res@ == name_or_empty(p@),
{
    match path_file_name(p) {
        Some(n) => n,
        None => String::new(),
    }
}

} // verus!

verus! {

/// What `Path == Path` answers for two paths: equality component by
/// component.
pub uninterp spec fn same_path(a: Seq<char>, b: Seq<char>) -> bool;

/// `Path::eq`: whether two paths have the same components. The contract
/// names the result and states the reflexivity that `Path: Eq` promises;
/// the component rules are not stated.
#[verifier::external_body]
pub(crate) fn paths_equal(a: &str, b: &str) -> (res: bool)
    ensures
        res == same_path(a@, b@),
        a@ == b@ ==> res,
{
    std::path::Path::new(a) == std::path::Path::new(b)
}

} // verus!
