//! File paths, as far as the library needs them.

use crate::text;
use std::path::PathBuf;
use vstd::prelude::*;
use vstd::utf8::*;

verus! {

/// `std::path::PathBuf`, carried as an opaque value.
#[verifier::external_type_specification]
#[verifier::external_body]
pub struct ExPathBuf(PathBuf);

/// The components of a path, from the first to the last, each as the bytes of its name. A path is
/// taken as it is on Unix, where nothing but `/` separates components.
pub uninterp spec fn path_components(path: PathBuf) -> Seq<Seq<u8>>;

/// `name` is the name of one file: it is not empty, holds no separator and no drive mark, and is
/// neither the current nor the parent directory.
pub open spec fn is_file_name(name: Seq<char>) -> bool {
    &&& name.len() > 0
    &&& !name.contains('/')
    &&& !name.contains('\\')
    &&& !name.contains(':')
    &&& name != seq!['.']
    &&& name != seq!['.', '.']
}

/// Calls `std::path::Path::join`, which extends a path by one component when it is given the
/// name of a file. The contract is meant for Unix: on Windows the name can become part of a
/// prefix, as it does behind `\\server`.
#[verifier::external_body]
pub(crate) fn join_file_name(base: &PathBuf, name: &str) -> (joined: PathBuf)
    requires
        is_file_name(name@),
    ensures
        path_components(joined) == path_components(*base).push(encode_utf8(name@)),
{
    base.join(name)
}

/// The path has a last component, and that is not the root directory.
pub open spec fn has_parent(components: Seq<Seq<u8>>) -> bool {
    components.len() > 0 && components.last() != encode_utf8(seq!['/'])
}

/// A path that ends in the name of a file has a parent.
pub(crate) proof fn lemma_files_have_parents(components: Seq<Seq<u8>>, name: Seq<char>)
    requires
        is_file_name(name),
        components.len() > 0,
        components.last() == encode_utf8(name),
    ensures
        has_parent(components),
{
    if encode_utf8(name) == encode_utf8(seq!['/']) {
        text::lemma_encoding_is_injective(name, seq!['/']);
        assert(name[0] == '/');
    }
}

/// Calls `std::path::Path::parent`, which gives the path without its last component. There is no
/// such path if there are no components or if the last one is the root directory.
#[verifier::external_body]
pub(crate) fn parent_directory(path: &PathBuf) -> (parent: Option<PathBuf>)
    ensures
        parent is Some <==> has_parent(path_components(*path)),
        parent is Some ==> path_components(parent->0) == path_components(*path).drop_last(),
{
    path.parent().map(|parent| parent.to_path_buf())
}

/// Calls `PathBuf`'s `==`, which compares the components of two paths.
#[verifier::external_body]
pub(crate) fn same_path(a: &PathBuf, b: &PathBuf) -> (same: bool)
    ensures
        same == (path_components(*a) == path_components(*b)),
{
    a == b
}

/// How a path is shown to people.
pub uninterp spec fn shown_path(path: PathBuf) -> Seq<char>;

/// Calls `std::path::Path::display` and takes its text.
#[verifier::external_body]
pub(crate) fn show_path(path: &PathBuf) -> (shown: String)
    ensures
        shown@ == shown_path(*path),
{
    path.display().to_string()
}

/// Calls `PathBuf::new`, which makes a path without components.
#[verifier::external_body]
pub(crate) fn empty_path() -> (path: PathBuf)
    ensures
        path_components(path) == Seq::<Seq<u8>>::empty(),
{
    PathBuf::new()
}

/// `PathBuf`'s `clone` gives an equal path.
pub assume_specification[ <PathBuf as Clone>::clone ](cloned: &PathBuf) -> (copy: PathBuf)
    ensures
        copy == *cloned,
;

} // verus!
