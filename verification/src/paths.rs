//! Local path arithmetic, delegated to `std::path`.

use vstd::prelude::*;

verus! {

/// The path `std::path::Path::join` builds from `base` and `rest`. It is a
/// name, not a formula: the result depends on the platform the program is
/// built for (on Unix `/` is the only separator and a leading `/` makes
/// `rest` replace `base`; on Windows both `/` and `\` separate, `\` is
/// inserted, and drive prefixes take part), and the program is built for
/// both.
pub uninterp spec fn joined_path(base: Seq<char>, rest: Seq<char>) -> Seq<char>;

/// The parent `std::path::Path::parent` gives for `p` (`None` at a root or
/// for the empty path).
pub uninterp spec fn parent_path(p: Seq<char>) -> Option<Seq<char>>;

/// `base` joined with `rest` (std `Path::join`). Claimed: the result is
/// `joined_path(base, rest)`; both inputs are UTF-8, so is the joined path and
/// the conversion back to a string loses nothing.
#[verifier::external_body]
pub(crate) fn path_join(base: &str, rest: &str) -> (r: String)
    ensures
        r@ == joined_path(base@, rest@),
{
    std::path::Path::new(base).join(rest).to_string_lossy().into_owned()
}

/// The parent directory of `p` (std `Path::parent`). Claimed: the result is
/// `parent_path(p)`; the parent is a prefix of `p`, so it converts back to a
/// string unchanged.
#[verifier::external_body]
pub(crate) fn path_parent(p: &str) -> (r: Option<String>)
    ensures
        match r {
            Some(s) => parent_path(p@) == Some(s@),
            None => parent_path(p@) is None,
        },
{
    match std::path::Path::new(p).parent() {
        Some(q) => Some(q.to_string_lossy().into_owned()),
        None => None,
    }
}

} // verus!
