//! The filesystem paths the library carries, and the filesystem queries it makes.
use vstd::prelude::*;
use std::path::{Component, Path, PathBuf};

verus! {

#[verifier::external_type_specification]
#[verifier::external_body]
pub struct ExPathBuf(PathBuf);

#[verifier::external_type_specification]
#[verifier::external_body]
pub struct ExPath(Path);

/// `Path::canonicalize`: the absolute, symlink-free form of a path, `None` where
/// it cannot be formed. The answer depends on the filesystem; nothing is claimed of it.
#[verifier::external_body]
pub(crate) fn canonical(p: &Path) -> Option<PathBuf> {
    p.canonicalize().ok()
}

/// What `Path::parent` gives for a path.
pub uninterp spec fn path_parent(p: &Path) -> Option<&Path>;

/// `Path::parent`: the contract claims only that the result is a fixed function
/// of the path, named `path_parent`.
#[verifier::external_body]
pub(crate) fn parent_of(p: &Path) -> (r: Option<&Path>)
    ensures
        r == path_parent(p),
{
    p.parent()
}

/// The folder a target path is checked by: its parent, or the path itself
/// where it has none.
pub fn parent_or_self(p: &Path) -> (r: &Path)
    ensures
        r == match path_parent(p) {
            Some(q) => q,
            None => p,
        },
{
    match parent_of(p) {
        Some(q) => q,
        None => p,
    }
}

/// Which components of a path, as `Path::components` gives them, are `..`.
pub uninterp spec fn path_dotdot_flags(p: &Path) -> Seq<bool>;

/// `Path::components`, each told apart as a `..` component or not: the
/// contract claims only that the result is a fixed function of the path, named
/// `path_dotdot_flags`.
#[verifier::external_body]
pub(crate) fn parent_dir_flags(p: &Path) -> (r: Vec<bool>)
    ensures
        r@ == path_dotdot_flags(p),
{
    p.components().map(|c| matches!(c, Component::ParentDir)).collect()
}

/// What `Path::starts_with` answers: whether `base` is a prefix of `p`,
/// component-wise.
pub uninterp spec fn path_within(p: PathBuf, base: PathBuf) -> bool;

/// `Path::starts_with`: the contract claims only that the answer is a fixed
/// function of the two paths, named `path_within`.
#[verifier::external_body]
pub(crate) fn path_starts_with(p: &PathBuf, base: &PathBuf) -> (r: bool)
    ensures
        r == path_within(*p, *base),
{
    p.starts_with(base)
}

/// `PathBuf::clone`: nothing is claimed of the copy.
pub assume_specification[ <PathBuf as Clone>::clone ](p: &PathBuf) -> PathBuf;

/// What `Path::join` gives for a path and a name appended to it.
pub uninterp spec fn path_joined(base: PathBuf, name: Seq<char>) -> PathBuf;

/// `Path::join`: the contract claims only that the result is a fixed function
/// of the path and the name, named `path_joined`.
#[verifier::external_body]
pub(crate) fn path_join(base: &PathBuf, name: &str) -> (r: PathBuf)
    ensures
        r == path_joined(*base, name@),
{
    base.join(name)
}

/// What `Path::to_path_buf` gives for a borrowed path.
pub uninterp spec fn path_owned(p: &Path) -> PathBuf;

/// `Path::to_path_buf`: the contract claims only that the result is a fixed
/// function of the path, named `path_owned`.
#[verifier::external_body]
pub(crate) fn path_to_buf(p: &Path) -> (r: PathBuf)
    ensures
        r == path_owned(p),
{
    p.to_path_buf()
}

/// What `Path::to_string_lossy` gives for a path.
pub uninterp spec fn path_lossy_text(p: &Path) -> Seq<char>;

/// `Path::to_string_lossy`, owned: the contract claims only that the result is
/// a fixed function of the path, named `path_lossy_text`.
#[verifier::external_body]
pub(crate) fn path_text(p: &Path) -> (r: String)
    ensures
        r@ == path_lossy_text(p),
{
    p.to_string_lossy().to_string()
}

/// `Path::exists`: whether the filesystem holds an entry at the path. The answer
/// depends on the filesystem; nothing is claimed of it.
#[verifier::external_body]
pub(crate) fn path_exists(p: &PathBuf) -> bool {
    p.exists()
}

/// `Path::is_file`: whether the filesystem holds a regular file at the path. The
/// answer depends on the filesystem; nothing is claimed of it.
#[verifier::external_body]
pub(crate) fn path_is_file(p: &PathBuf) -> bool {
    p.is_file()
}

/// What `PathBuf::from` gives for a string.
pub uninterp spec fn path_of_text(s: Seq<char>) -> PathBuf;

/// `PathBuf::from` a string: the contract claims only that the result is a
/// fixed function of the string, named `path_of_text`.
#[verifier::external_body]
pub(crate) fn path_from(s: &str) -> (r: PathBuf)
    ensures
        r == path_of_text(s@),
{
    PathBuf::from(s)
}

} // verus!
