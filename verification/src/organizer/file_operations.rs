//! File name helpers.

use vstd::prelude::*;
use std::path::Path;

verus! {

/// What `Path::extension` finds in the path that a text writes: what
/// follows the last dot of the file name. There is none where the path has
/// no file name, where the file name has no dot, or where its only dot
/// comes first.
pub uninterp spec fn extension_of(path: Seq<char>) -> Option<Seq<char>>;

/// What `str::to_lowercase` makes of a text: its lowercase equivalent as
/// Unicode defines it.
pub uninterp spec fn lowercase_of(text: Seq<char>) -> Seq<char>;

/// The extension of the file that a path names, in lower case.
pub open spec fn file_extension(path: Seq<char>) -> Option<Seq<char>> {
    match extension_of(path) {
        Some(e) => Some(lowercase_of(e)),
        None => None,
    }
}

/// `Path::extension` of the path that `path` writes. The extension is a
/// piece of that text, so turning it back into text loses nothing.
#[verifier::external_body]
fn path_extension(path: &str) -> (extension: Option<String>)
    ensures
        match extension {
            Some(e) => extension_of(path@) == Some(e@),
            None => extension_of(path@).is_none(),
        },
{
    match Path::new(path).extension() {
        Some(e) => Some(e.to_string_lossy().into_owned()),
        None => None,
    }
}

/// `str::to_lowercase`.
#[verifier::external_body]
fn to_lowercase(text: &str) -> (lower: String)
    ensures
        lower@ == lowercase_of(text@),
{
    text.to_lowercase()
}

/// Brings an extension, where there is one, to lower case.
pub fn lowercase_extension(extension: Option<String>) -> (lower: Option<String>)
    ensures
        extension.is_none() <==> lower.is_none(),
        extension matches Some(e) ==> lower matches Some(l) && l@ == lowercase_of(e@),
{
    match extension {
        Some(e) => Some(to_lowercase(e.as_str())),
        None => None,
    }
}

/// The extension of the file that `path` names, in lower case, or `None`
/// where the file name has none.
pub fn get_file_extension(path: &str) -> (extension: Option<String>)
    ensures
        match file_extension(path@) {
            Some(lower) => extension matches Some(l) && l@ == lower,
            None => extension.is_none(),
        },
{
    lowercase_extension(path_extension(path))
}

} // verus!
