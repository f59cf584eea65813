//! Paths as text: making one absolute, and finding its parent.

use std::path::Path;

use path_absolutize::Absolutize;
use vstd::prelude::*;

use crate::fs_ops::Error;
use crate::text::text_of;

verus! {

broadcast use vstd::string::group_string_axioms;

/// The absolute form of `path` as seen from the directory `cwd`, as
/// `path_absolutize` computes it; `None` where it reports a failure.
pub uninterp spec fn absolutized(path: Seq<char>, cwd: Seq<char>) -> Option<Seq<char>>;

/// The path without its final component, as `std::path::Path::parent`
/// gives it; `None` for a path that ends in a root, and for the empty path.
pub uninterp spec fn parent_of(path: Seq<char>) -> Option<Seq<char>>;

/// The final component of `path`, as `std::path::Path::file_name` gives
/// it; `None` for a path that ends in `..` or in a root.
pub uninterp spec fn file_name_of(path: Seq<char>) -> Option<Seq<char>>;

/// A path that starts at the root of the filesystem.
pub open spec fn is_rooted(path: Seq<char>) -> bool {
    path.len() > 0 && path[0] == '/'
}

/// Calls `path_absolutize::Absolutize::absolutize_from` on `path` with
/// `cwd` as the working directory. The contract claims only that the
/// result is a function of the two texts, named [`absolutized`]. With a
/// `cwd` that is not rooted the call can run out of components and panic,
/// so such a `cwd` is not admitted.
#[verifier::external_body]
fn absolutize_from(path: &str, cwd: &str) -> (absolute: Option<String>)
    requires
        is_rooted(cwd@),
    ensures
        text_of(absolute) == absolutized(path@, cwd@),
{
    Path::new(path).absolutize_from(Path::new(cwd)).ok().map(|p| p.to_string_lossy().into_owned())
}

/// Calls `std::path::Path::parent` on `path`. The contract claims only
/// that the result is a function of the text, named [`parent_of`].
#[verifier::external_body]
pub(crate) fn path_parent(path: &str) -> (parent: Option<String>)
    ensures
        text_of(parent) == parent_of(path@),
{
    Path::new(path).parent().map(|p| p.to_string_lossy().into_owned())
}

/// Calls `std::path::Path::file_name` on `path`. The contract claims
/// only that the result is a function of the text, named [`file_name_of`].
#[verifier::external_body]
pub(crate) fn path_file_name(path: &str) -> (name: Option<String>)
    ensures
        text_of(name) == file_name_of(path@),
{
    Path::new(path).file_name().map(|n| n.to_string_lossy().into_owned())
}

/// Whether `path` starts at the root of the filesystem.
pub fn starts_at_root(path: &str) -> (rooted: bool)
    ensures
        rooted == is_rooted(path@),
{
    let mut rest = path.chars();
    match rest.next() {
        Some(c) => c == '/',
        None => false,
    }
}

/// What is made of the outcome of making a path absolute: the absolute
/// path, or a failure where there is none.
pub fn resolution(absolute: Option<String>) -> (target: Result<String, Error>)
    ensures
        match absolute {
            Some(absolute) => target matches Ok(target) && target@ == absolute@,
            None => target matches Err(error) && error.reason()
                == "the path cannot be made absolute"@,
        },
{
    match absolute {
        Some(absolute) => Ok(absolute),
        None => Err(Error::ScanFailed(String::from_str("the path cannot be made absolute"))),
    }
}

/// The absolute form of `path` as seen from the working directory `cwd`.
/// Fails where `cwd` is not itself rooted, and where the path cannot be
/// made absolute.
pub fn resolve(path: &str, cwd: &str) -> (target: Result<String, Error>)
    ensures
        is_rooted(cwd@) ==> match absolutized(path@, cwd@) {
            Some(absolute) => target matches Ok(target) && target@ == absolute,
            None => target matches Err(error) && error.reason()
                == "the path cannot be made absolute"@,
        },
        !is_rooted(cwd@) ==> (target matches Err(error) && error.reason()
            == "the working directory is not absolute"@),
{
    if starts_at_root(cwd) {
        resolution(absolutize_from(path, cwd))
    } else {
        Err(Error::ScanFailed(String::from_str("the working directory is not absolute")))
    }
}

} // verus!
