//! Helpers for strings and lists of strings, and what the library takes on
//! trust from the standard library's string and path functions.

use std::path::Path;
use vstd::prelude::*;
use vstd::string::StringExecFns;
use vstd::utf8::{decode_utf8, valid_utf8};

verus! {

/// The views of the strings in `texts`, in order.
pub open spec fn text_views(texts: Seq<String>) -> Seq<Seq<char>> {
    Seq::new(texts.len(), |i: int| texts[i]@)
}

/// The texts in `texts`, as a set.
pub open spec fn text_set(texts: Seq<Seq<char>>) -> Set<Seq<char>> {
    Set::new(|text: Seq<char>| texts.contains(text))
}

/// A copy of `texts`.
pub(crate) fn clone_texts(texts: &Vec<String>) -> (copy: Vec<String>)
    ensures
        text_views(copy@) == text_views(texts@),
{
    let mut copy: Vec<String> = Vec::new();
    let mut i: usize = 0;
    while i < texts.len()
        invariant
            i <= texts.len(),
            copy.len() == i,
            forall|k: int| 0 <= k < i ==> copy[k]@ == texts[k]@,
        decreases texts.len() - i,
    {
        copy.push(texts[i].clone());
        i = i + 1;
    }
    assert(text_views(copy@) =~= text_views(texts@));
    copy
}

/// Whether `text` is among `texts`.
pub(crate) fn contains_text(texts: &Vec<String>, text: &String) -> (found: bool)
    ensures
        found == text_views(texts@).contains(text@),
{
    let mut i: usize = 0;
    while i < texts.len()
        invariant
            i <= texts.len(),
            forall|k: int| 0 <= k < i ==> texts[k]@ != text@,
        decreases texts.len() - i,
    {
        if texts[i] == *text {
            assert(text_views(texts@)[i as int] == text@);
            return true;
        }
        i = i + 1;
    }
    assert forall|k: int| 0 <= k < text_views(texts@).len() implies text_views(texts@)[k]
        != text@ by {
        assert(texts[k]@ != text@);
    }
    false
}

/// An owned copy of `text`, where there is one.
pub(crate) fn owned_text(text: Option<&str>) -> (copy: Option<String>)
    ensures
        match copy {
            Some(owned) => text matches Some(given) && owned@ == given@,
            None => text is None,
        },
{
    match text {
        Some(given) => Some(String::from_str(given)),
        None => None,
    }
}

/// What `str::to_lowercase` makes of `text`.
pub uninterp spec fn lowercase(text: Seq<char>) -> Seq<char>;

/// Calls `str::to_lowercase`. Trusted: the lowercase form depends on the
/// text alone.
#[verifier::external_body]
pub(crate) fn to_lowercase(text: &str) -> (lowered: String)
    ensures
        lowered@ == lowercase(text@),
{
    text.to_lowercase()
}

/// The lines that `str::lines` finds in `text`, in order.
pub uninterp spec fn lines_of(text: Seq<char>) -> Seq<Seq<char>>;

/// Calls `str::lines` and copies each line. Trusted: the lines depend on the
/// text alone.
#[verifier::external_body]
pub(crate) fn split_lines(text: &str) -> (lines: Vec<String>)
    ensures
        text_views(lines@) == lines_of(text@),
{
    text.lines().map(str::to_owned).collect()
}

/// What `str::trim` leaves of `text`.
pub uninterp spec fn trimmed(text: Seq<char>) -> Seq<char>;

/// Calls `str::trim`. Trusted: what is left depends on the text alone.
#[verifier::external_body]
pub(crate) fn trim(text: &str) -> (inner: &str)
    ensures
        inner@ == trimmed(text@),
{
    text.trim()
}

/// Calls `String::from_utf8`. Trusted: it succeeds exactly on valid UTF-8,
/// and the string then holds the characters that the bytes encode.
#[verifier::external_body]
pub(crate) fn text_from_utf8(bytes: Vec<u8>) -> (text: Option<String>)
    ensures
        match text {
            Some(decoded) => valid_utf8(bytes@) && decoded@ == decode_utf8(bytes@),
            None => !valid_utf8(bytes@),
        },
{
    String::from_utf8(bytes).ok()
}

/// The path without its final component that `std::path::Path::parent`
/// finds for `path`; `None` where it finds no parent.
pub uninterp spec fn path_parent_of(path: Seq<char>) -> Option<Seq<char>>;

/// Calls `std::path::Path::parent`. Trusted: whether a path has a parent,
/// and which, depends on the path's text alone, by the path syntax that the
/// library is built for.
#[verifier::external_body]
pub(crate) fn path_parent(path: &str) -> (parent: Option<String>)
    ensures
        match parent {
            Some(found) => path_parent_of(path@) == Some(found@),
            None => path_parent_of(path@) is None,
        },
{
    Path::new(path).parent()?.to_str().map(str::to_owned)
}

/// The final component that `std::path::Path::file_name` finds in `path`;
/// `None` where it finds none.
pub uninterp spec fn path_file_name_of(path: Seq<char>) -> Option<Seq<char>>;

/// Calls `std::path::Path::file_name`. Trusted: whether a path has a final
/// component, and which, depends on the path's text alone, by the path
/// syntax that the library is built for.
#[verifier::external_body]
pub(crate) fn path_file_name(path: &str) -> (name: Option<String>)
    ensures
        match name {
            Some(found) => path_file_name_of(path@) == Some(found@),
            None => path_file_name_of(path@) is None,
        },
{
    Path::new(path).file_name()?.to_str().map(str::to_owned)
}

/// The name of the directory in which the file at `path` lies: the final
/// component of the path's parent. `None` where the path has no parent or
/// the parent has no final component.
pub open spec fn parent_directory(path: Seq<char>) -> Option<Seq<char>> {
    match path_parent_of(path) {
        Some(parent) => path_file_name_of(parent),
        None => None,
    }
}

} // verus!
