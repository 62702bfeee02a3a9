//! File-system path operations of `std::path`, on paths held as strings.
//! Their results follow the path syntax of the platform the crate is built for.

use vstd::prelude::*;

verus! {

/// The path `base.join(rel)` (`std::path::Path::join`).
pub uninterp spec fn path_join(base: Seq<char>, rel: Seq<char>) -> Seq<char>;

/// Whether `Path::new(a) == Path::new(b)`: the two paths have the same components.
pub uninterp spec fn path_eq(a: Seq<char>, b: Seq<char>) -> bool;

/// `Path::new(path).strip_prefix(base)`: what is left of `path` after the
/// components of `base`, or `None` when `base` is not a prefix of it.
pub uninterp spec fn path_strip_prefix(path: Seq<char>, base: Seq<char>) -> Option<Seq<char>>;

/// Calls `std::path::Path::join`. Both inputs are UTF-8, so the joined path
/// is too, and the lossy conversion back to a string keeps it whole.
/// Claimed: the result is `path_join` of the two inputs.
#[verifier::external_body]
pub(crate) fn join_path(base: &str, rel: &str) -> (r: String)
    ensures
        r@ == path_join(base@, rel@),
{
    std::path::Path::new(base).join(rel).to_string_lossy().into_owned()
}

/// Compares two paths with `PartialEq for std::path::Path`. Claimed: the
/// answer is `path_eq` of the two inputs.
#[verifier::external_body]
pub(crate) fn same_path(a: &str, b: &str) -> (r: bool)
    ensures
        r == path_eq(a@, b@),
{
    std::path::Path::new(a) == std::path::Path::new(b)
}

/// Calls `std::path::Path::strip_prefix`; the remainder of a UTF-8 path is
/// UTF-8. Claimed: the result is `path_strip_prefix` of the two inputs.
#[verifier::external_body]
pub(crate) fn strip_path_prefix(path: &str, base: &str) -> (r: Option<String>)
    ensures
        match r {
            Some(rest) => path_strip_prefix(path@, base@) == Some(rest@),
            None => path_strip_prefix(path@, base@) is None,
        },
{
    match std::path::Path::new(path).strip_prefix(base) {
        Ok(rest) => Some(rest.to_string_lossy().into_owned()),
        Err(_) => None,
    }
}

} // verus!
