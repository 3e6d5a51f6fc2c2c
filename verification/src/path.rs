//! Paths of files, written with `/`.
use vstd::prelude::*;
use vstd::string::*;

verus! {

/// Whether the path starts at the root.
pub open spec fn is_absolute(path: Seq<char>) -> bool {
    path.len() > 0 && path[0] == '/'
}

/// `path` inside of `folder`: an absolute path stands for itself, and a separator comes in between
/// where `folder` needs one.
pub open spec fn inside(folder: Seq<char>, path: Seq<char>) -> Seq<char> {
    if is_absolute(path) {
        path
    } else if folder.len() == 0 || folder.last() == '/' {
        folder + path
    } else {
        folder + "/"@ + path
    }
}

/// `path` inside of `folder`.
pub fn join_path(folder: &str, path: &str) -> (r: String)
    ensures
        r@ == inside(folder@, path@),
{
    if path.unicode_len() > 0 && path.get_char(0) == '/' {
        return path.to_owned();
    }
    let n = folder.unicode_len();
    let mut r = folder.to_owned();
    if n > 0 && folder.get_char(n - 1) != '/' {
        r.append("/");
    }
    r.append(path);
    r
}

/// The folder that [`std::path::Path::parent`] names for a path.
pub uninterp spec fn parent_of(path: Seq<char>) -> Option<Seq<char>>;

/// The last component that [`std::path::Path::file_name`] names for a path.
pub uninterp spec fn file_name_of(path: Seq<char>) -> Option<Seq<char>>;

/// A path as its [`std::fmt::Debug`] form shows it.
pub uninterp spec fn shown_path(path: Seq<char>) -> Seq<char>;

/// Calls [`std::path::Path::parent`]. The result is a function of the path alone. The folder of a
/// path that is text is text too, so that nothing is lost where it is turned into a string.
#[verifier::external_body]
pub(crate) fn parent(path: &str) -> (r: Option<String>)
    ensures
        r.deep_view() == parent_of(path@),
{
    match std::path::Path::new(path).parent() {
        Some(folder) => Some(folder.to_string_lossy().into_owned()),
        None => None,
    }
}

/// Calls [`std::path::Path::file_name`]. The result is a function of the path alone.
#[verifier::external_body]
pub(crate) fn file_name(path: &str) -> (r: Option<String>)
    ensures
        r.deep_view() == file_name_of(path@),
{
    match std::path::Path::new(path).file_name() {
        Some(name) => Some(name.to_string_lossy().into_owned()),
        None => None,
    }
}

/// Formats a [`std::path::Path`] by its [`std::fmt::Debug`] form. The result is a function of the
/// path alone.
#[verifier::external_body]
pub(crate) fn show_path(path: &str) -> (r: String)
    ensures
        r@ == shown_path(path@),
{
    format!("{:?}", std::path::Path::new(path))
}

} // verus!
