//! Paths of the files that make up a disk.
use std::path::Path;

use vstd::prelude::*;

use crate::text;

verus! {

/// `path` begins at the root directory.
pub open spec fn absolute(path: Seq<char>) -> bool {
    path.len() > 0 && path[0] == '/'
}

/// What `Path::parent` returns.
pub uninterp spec fn path_parent(path: Seq<char>) -> Option<Seq<char>>;

/// What `Path::join` returns.
pub uninterp spec fn path_joined(directory: Seq<char>, path: Seq<char>) -> Seq<char>;

/// What `Path::file_name` returns.
pub uninterp spec fn path_file_name(path: Seq<char>) -> Option<Seq<char>>;

/// What `Path::with_file_name` returns.
pub uninterp spec fn path_with_file_name(path: Seq<char>, name: Seq<char>) -> Seq<char>;

/// Calls `std::path::Path::is_absolute`. On Unix, where this disk runs, a path is absolute
/// exactly when it begins with the root, `/`.
#[verifier::external_body]
fn is_absolute(path: &str) -> (r: bool)
    ensures
        r == absolute(path@),
{
    Path::new(path).is_absolute()
}

/// `name` can be the name of a file: it is not empty, does not stand for a directory, and has no
/// separator in it.
pub open spec fn plain_name(name: Seq<char>) -> bool {
    &&& name.len() > 0
    &&& name != seq!['.']
    &&& name != seq!['.', '.']
    &&& !name.contains('/')
}

/// Calls `std::path::Path::parent`. The result depends on the path alone; the empty path has no
/// parent. How the final component is told from the rest is left unsaid.
#[verifier::external_body]
fn parent(path: &str) -> (r: Option<String>)
    ensures
        text::text_view(r) == path_parent(path@),
        path@.len() == 0 ==> r is None,
{
    match Path::new(path).parent() {
        Some(parent) => Some(parent.to_string_lossy().into_owned()),
        None => None,
    }
}

/// Calls `std::path::Path::join`. The result depends on the two paths alone; an absolute path
/// replaces the directory. How a relative path is put behind the directory is left unsaid.
#[verifier::external_body]
fn join(directory: &str, path: &str) -> (r: String)
    ensures
        r@ == path_joined(directory@, path@),
        absolute(path@) ==> r@ == path@,
{
    Path::new(directory).join(path).to_string_lossy().into_owned()
}

/// Calls `std::path::Path::file_name`. The result depends on the path alone. It is one component
/// of the path, so it has no separator in it. Which component is the final one is left unsaid.
#[verifier::external_body]
pub(crate) fn file_name(path: &str) -> (r: Option<String>)
    ensures
        text::text_view(r) == path_file_name(path@),
        r matches Some(name) ==> !name@.contains('/'),
{
    match Path::new(path).file_name() {
        Some(name) => Some(name.to_string_lossy().into_owned()),
        None => None,
    }
}

/// Calls `std::path::Path::with_file_name`. The result depends on the path and the name alone.
/// A plain name becomes the file name of the result, which is a sibling of a path that had a file
/// name: both have the same parent.
#[verifier::external_body]
pub(crate) fn with_file_name(path: &str, name: &str) -> (r: String)
    ensures
        r@ == path_with_file_name(path@, name@),
        plain_name(name@) ==> path_file_name(r@) == Some(name@),
        plain_name(name@) && path_file_name(path@) is Some ==> path_parent(r@) == path_parent(
            path@,
        ),
{
    Path::new(path).with_file_name(name).to_string_lossy().into_owned()
}

/// The path that a spec whose own directory is `parent` means by `path`.
pub open spec fn resolved_in(parent: Option<Seq<char>>, path: Seq<char>) -> Seq<char> {
    if absolute(path) {
        path
    } else {
        path_joined(
            match parent {
                Some(directory) => directory,
                None => "."@,
            },
            path,
        )
    }
}

/// The path that the spec at `spec_path` means by `path`.
pub open spec fn resolved(spec_path: Seq<char>, path: Seq<char>) -> Seq<char> {
    resolved_in(path_parent(spec_path), path)
}

/// Resolves a path of a spec whose own directory is `parent`: an absolute path stands for itself,
/// a relative one is taken from that directory, or from the current one where there is none.
pub fn resolve_in(parent: Option<&str>, path: &str) -> (r: String)
    ensures
        r@ == resolved_in(
            match parent {
                Some(directory) => Some(directory@),
                None => None,
            },
            path@,
        ),
{
    if is_absolute(path) {
        path.to_owned()
    } else {
        match parent {
            Some(directory) => join(directory, path),
            None => join(".", path),
        }
    }
}

/// Resolves a path of the spec at `spec_path`.
pub fn resolve_spec_path(spec_path: &str, path: &str) -> (r: String)
    ensures
        r@ == resolved(spec_path@, path@),
{
    match parent(spec_path) {
        Some(directory) => resolve_in(Some(directory.as_str()), path),
        None => resolve_in(None, path),
    }
}

/// `parent`, unless it is empty and so stands for the current directory.
pub open spec fn named_directory(parent: Option<Seq<char>>) -> Option<Seq<char>> {
    match parent {
        Some(directory) => if directory.len() == 0 {
            None
        } else {
            Some(directory)
        },
        None => None,
    }
}

/// The directory that holds the file at `path`, unless it is the current one.
pub open spec fn directory(path: Seq<char>) -> Option<Seq<char>> {
    named_directory(path_parent(path))
}

/// `parent`, unless it is empty and so stands for the current directory.
pub fn keep_named(parent: Option<String>) -> (r: Option<String>)
    ensures
        text::text_view(r) == named_directory(text::text_view(parent)),
{
    match parent {
        Some(directory) => if directory.as_str().is_empty() {
            None
        } else {
            Some(directory)
        },
        None => None,
    }
}

/// The directory that holds the file at `path`, unless it is the current one.
pub fn directory_of(path: &str) -> (r: Option<String>)
    ensures
        text::text_view(r) == directory(path@),
{
    keep_named(parent(path))
}

/// A path that begins with `/` stands for itself; any other is joined to the directory of the
/// spec, or to `.` where the spec's path has no parent.
pub proof fn law_resolved(spec_path: Seq<char>, path: Seq<char>)
    ensures
        path.len() > 0 && path[0] == '/' ==> resolved(spec_path, path) == path,
        !(path.len() > 0 && path[0] == '/') ==> match path_parent(spec_path) {
            Some(directory) => resolved(spec_path, path) == path_joined(directory, path),
            None => resolved(spec_path, path) == path_joined("."@, path),
        },
        resolved(spec_path, path) == resolved_in(path_parent(spec_path), path),
{
}

/// Paths are resolved alike from all specs of one directory.
pub proof fn law_resolved_by_directory(a: Seq<char>, b: Seq<char>, path: Seq<char>)
    requires
        path_parent(a) == path_parent(b),
    ensures
        resolved(a, path) == resolved(b, path),
{
}

/// The directory of a file is its parent, unless that is empty or missing.
pub proof fn law_directory(path: Seq<char>)
    ensures
        directory(path) matches Some(d) ==> d.len() > 0 && path_parent(path) == Some(d),
        directory(path) is None ==> path_parent(path) is None || path_parent(path)->0.len() == 0,
        named_directory(path_parent(path)) == directory(path),
{
}

/// A path that begins with `/` stands for itself whatever the directory is; any other is joined to
/// the directory, or to `.` where there is none.
pub proof fn law_resolved_in(parent: Option<Seq<char>>, path: Seq<char>)
    ensures
        path.len() > 0 && path[0] == '/' ==> resolved_in(parent, path) == path,
        !(path.len() > 0 && path[0] == '/') ==> match parent {
            Some(directory) => resolved_in(parent, path) == path_joined(directory, path),
            None => resolved_in(parent, path) == path_joined("."@, path),
        },
{
}

/// A parent is kept as a directory exactly when it is there and not empty.
pub proof fn law_named_directory(parent: Option<Seq<char>>)
    ensures
        named_directory(parent) is Some <==> parent is Some && parent->0.len() > 0,
        named_directory(parent) is Some ==> named_directory(parent) == parent,
{
}

} // verus!
