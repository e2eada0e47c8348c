//! Paths as the host platform reads them.
//!
//! The library holds a path as text. Joining, taking a parent and comparing
//! paths by their components is left to `std::path`; what it returns is named
//! here, and the contracts of the library speak of those names.

use vstd::prelude::*;

verus! {

/// The path that `std::path` makes of `name` adjoined to `base`.
pub uninterp spec fn joined_path(base: Seq<char>, name: Seq<char>) -> Seq<char>;

/// The path without its final component, as `std::path` gives it; `None`
/// where the path has no parent.
pub uninterp spec fn parent_path(path: Seq<char>) -> Option<Seq<char>>;

/// Whether the components of `base` are a prefix of the components of `path`,
/// as `std::path` decides it.
pub uninterp spec fn path_within(path: Seq<char>, base: Seq<char>) -> bool;

/// Whether `std::path` takes `a` and `b` for the same path.
pub uninterp spec fn same_path(a: Seq<char>, b: Seq<char>) -> bool;

/// The text that `std::fmt::Debug` writes for a path: the path in quotes,
/// with what needs it escaped.
pub uninterp spec fn quoted_path(path: Seq<char>) -> Seq<char>;

/// Calls `std::path::Path::join` on `base` with `name`.
///
/// Trusted: the result is the text of the path that `join` returns, which
/// depends on the two texts alone.
#[verifier::external_body]
pub(crate) fn join_path(base: &str, name: &str) -> (r: String)
    ensures
        r@ == joined_path(base@, name@),
{
    std::path::Path::new(base).join(name).to_string_lossy().into_owned()
}

/// Calls `std::path::Path::parent` on `path`.
///
/// Trusted: the result is the text of the parent that `parent` returns, or
/// `None` where it returns none; it depends on the text alone.
#[verifier::external_body]
pub(crate) fn parent_of(path: &str) -> (r: Option<String>)
    ensures
        match r {
            Some(p) => parent_path(path@) == Some(p@),
            None => parent_path(path@) is None,
        },
{
    std::path::Path::new(path).parent().map(|p| p.to_string_lossy().into_owned())
}

/// Calls `std::path::Path::starts_with` on `path` with `base`.
///
/// Trusted: the result is what `starts_with` returns, which depends on the
/// two texts alone.
#[verifier::external_body]
pub(crate) fn is_within(path: &str, base: &str) -> (r: bool)
    ensures
        r == path_within(path@, base@),
{
    std::path::Path::new(path).starts_with(base)
}

/// Compares two paths with the `==` of `std::path::Path`.
///
/// Trusted: the result is what that comparison returns, which depends on the
/// two texts alone.
#[verifier::external_body]
pub(crate) fn is_same_path(a: &str, b: &str) -> (r: bool)
    ensures
        r == same_path(a@, b@),
{
    std::path::Path::new(a).eq(std::path::Path::new(b))
}

/// Formats a path with the `Debug` of `std::path::Path`.
///
/// Trusted: the result is the text that the formatting writes, which depends
/// on the path's text alone.
#[verifier::external_body]
pub(crate) fn quote_path(path: &str) -> (r: String)
    ensures
        r@ == quoted_path(path@),
{
    format!("{:?}", std::path::Path::new(path))
}

} // verus!
