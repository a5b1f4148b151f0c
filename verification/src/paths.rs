//! Path arithmetic. The library holds paths as strings and leaves their
//! dissection to `std::path`, whose results it names but does not define:
//! what a separator is, and hence what each name stands for, is a matter of
//! the platform the crate is built for.

use crate::text::text_of;
use std::path::Path;
use vstd::prelude::*;

verus! {

/// What `Path::parent` gives for `path`: the path without its final
/// component, or `None` where it ends in a root or is empty.
pub uninterp spec fn parent_of(path: Seq<char>) -> Option<Seq<char>>;

/// What `Path::file_name` gives for `path`: its final component, or `None`
/// where it ends in `..` or has no component.
pub uninterp spec fn file_name_of(path: Seq<char>) -> Option<Seq<char>>;

/// What `Path::file_stem` gives for `path`: the file name without its
/// extension, or `None` where there is no file name.
pub uninterp spec fn file_stem_of(path: Seq<char>) -> Option<Seq<char>>;

/// What `Path::extension` gives for `path`: what follows the last dot of the
/// file name, or `None` where there is no file name or no such dot.
pub uninterp spec fn extension_of(path: Seq<char>) -> Option<Seq<char>>;

/// What `Path::join` gives for `base` and `child`.
pub uninterp spec fn joined(base: Seq<char>, child: Seq<char>) -> Seq<char>;

/// Calls `std::path::Path::parent`. Trusted: the result is the one that std
/// computes from the characters of `path` alone.
#[verifier::external_body]
pub(crate) fn parent(path: &str) -> (r: Option<String>)
    ensures
        text_of(r) == parent_of(path@),
{
    Some(Path::new(path).parent()?.to_str()?.to_owned())
}

/// Calls `std::path::Path::file_name`. Trusted: the result is the one that
/// std computes from the characters of `path` alone.
#[verifier::external_body]
pub(crate) fn file_name(path: &str) -> (r: Option<String>)
    ensures
        text_of(r) == file_name_of(path@),
{
    Some(Path::new(path).file_name()?.to_str()?.to_owned())
}

/// Calls `std::path::Path::file_stem`. Trusted: the result is the one that
/// std computes from the characters of `path` alone.
#[verifier::external_body]
pub(crate) fn file_stem(path: &str) -> (r: Option<String>)
    ensures
        text_of(r) == file_stem_of(path@),
{
    Some(Path::new(path).file_stem()?.to_str()?.to_owned())
}

/// Calls `std::path::Path::extension`. Trusted: the result is the one that
/// std computes from the characters of `path` alone.
#[verifier::external_body]
pub(crate) fn extension(path: &str) -> (r: Option<String>)
    ensures
        text_of(r) == extension_of(path@),
{
    Some(Path::new(path).extension()?.to_str()?.to_owned())
}

/// Calls `std::path::Path::join`. Trusted: the result is the one that std
/// computes from the characters of `base` and `child` alone.
#[verifier::external_body]
pub(crate) fn join(base: &str, child: &str) -> (r: String)
    ensures
        r@ == joined(base@, child@),
{
    Path::new(base).join(child).to_string_lossy().into_owned()
}

} // verus!
