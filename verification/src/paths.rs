//! Paths, held as strings. The decomposition and joining of paths is
//! `std::path`'s; each operation is named here and called through one wrapper.
use std::path::Path;
use vstd::prelude::*;

verus! {

/// What `Path::join` gives for `base` joined with `name`.
pub uninterp spec fn path_join(base: Seq<char>, name: Seq<char>) -> Seq<char>;

/// What `Path::parent` gives for a path (`None` for a root or an empty path).
pub uninterp spec fn path_parent(p: Seq<char>) -> Option<Seq<char>>;

/// What `Path::file_name` gives for a path (`None` when it ends in `..` or is a root).
pub uninterp spec fn path_file_name(p: Seq<char>) -> Option<Seq<char>>;

/// What `Path::file_stem` gives for a path.
pub uninterp spec fn path_file_stem(p: Seq<char>) -> Option<Seq<char>>;

/// What `Path::extension` gives for a path.
pub uninterp spec fn path_extension(p: Seq<char>) -> Option<Seq<char>>;

/// The file name of a path, or the empty string where it has none
/// (`file_name().unwrap_or_default()`).
pub open spec fn file_name_or_empty(p: Seq<char>) -> Seq<char> {
    match path_file_name(p) {
        Some(n) => n,
        None => Seq::empty(),
    }
}

/// `Path::join`. The result is the name `path_join` applied to the two
/// arguments; nothing more is stated of how separators are handled.
#[verifier::external_body]
pub(crate) fn join_path(base: &str, name: &str) -> (res: String)
    ensures
        res@ == path_join(base@, name@),
{
    Path::new(base).join(name).to_string_lossy().into_owned()
}

/// `Path::parent`. The result is the name `path_parent` applied to the argument.
#[verifier::external_body]
pub(crate) fn parent_path(p: &str) -> (res: Option<String>)
    ensures
        match res {
            Some(s) => path_parent(p@) == Some(s@),
            None => path_parent(p@) is None,
        },
{
    Path::new(p).parent().map(|q| q.to_string_lossy().into_owned())
}

/// `Path::file_name`. The result is the name `path_file_name` applied to the argument.
#[verifier::external_body]
pub(crate) fn file_name(p: &str) -> (res: Option<String>)
    ensures
        match res {
            Some(s) => path_file_name(p@) == Some(s@),
            None => path_file_name(p@) is None,
        },
{
    Path::new(p).file_name().map(|q| q.to_string_lossy().into_owned())
}

/// `Path::file_stem`. The result is the name `path_file_stem` applied to the argument.
#[verifier::external_body]
pub(crate) fn file_stem(p: &str) -> (res: Option<String>)
    ensures
        match res {
            Some(s) => path_file_stem(p@) == Some(s@),
            None => path_file_stem(p@) is None,
        },
{
    Path::new(p).file_stem().map(|q| q.to_string_lossy().into_owned())
}

/// `Path::extension`. The result is the name `path_extension` applied to the argument.
#[verifier::external_body]
pub(crate) fn extension(p: &str) -> (res: Option<String>)
    ensures
        match res {
            Some(s) => path_extension(p@) == Some(s@),
            None => path_extension(p@) is None,
        },
{
    Path::new(p).extension().map(|q| q.to_string_lossy().into_owned())
}

/// `Path::exists`: whether the file system holds something at the path at the
/// moment of the call. Nothing is stated of the result, which depends on the disk.
#[verifier::external_body]
pub(crate) fn path_exists(p: &str) -> (res: bool) {
    Path::new(p).exists()
}

/// The file name of a path, or the empty string.
pub fn file_name_string(p: &str) -> (res: String)
    ensures
        res@ == file_name_or_empty(p@),
{
    match file_name(p) {
        Some(n) => n,
        None => String::new(),
    }
}

} // verus!
