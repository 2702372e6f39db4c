//! File-system paths as text, joined and split the way `std::path` does.
use vstd::prelude::*;

verus! {

/// The path `std::path::Path::join` makes of `base` and `rel` on Unix: an
/// absolute `rel` replaces `base`; otherwise `rel` follows `base` after a
/// `/`, which is left out when `base` is empty or already ends with one.
pub open spec fn path_join(base: Seq<char>, rel: Seq<char>) -> Seq<char> {
    if is_absolute(rel) {
        rel
    } else if base.len() == 0 || base.last() == '/' {
        base + rel
    } else {
        base + "/"@ + rel
    }
}

/// The parent `std::path::Path::parent` gives of a path: `None` for a root
/// or the empty path.
pub uninterp spec fn path_parent(p: Seq<char>) -> Option<Seq<char>>;

/// Joins two paths with `Path::join` (which pushes `rel` onto a copy of
/// `base`) and reads the result back as text. Claimed: the Unix behaviour
/// [`path_join`] states; the text comes back unchanged since both parts
/// are UTF-8.
#[verifier::external_body]
pub(crate) fn join_path(base: &str, rel: &str) -> (r: String)
    ensures
        r@ == path_join(base@, rel@),
{
    std::path::Path::new(base).join(rel).to_string_lossy().into_owned()
}

/// The parent of a path with `Path::parent`.  Besides being a function of
/// the path, the parent is claimed to be shorter than the path, as it is
/// the path without its final component.
#[verifier::external_body]
pub(crate) fn parent_path(p: &str) -> (r: Option<String>)
    ensures
        match path_parent(p@) {
            Some(q) => r matches Some(s) && s@ == q,
            None => r is None,
        },
        r matches Some(s) ==> s@.len() < p@.len(),
{
    std::path::Path::new(p).parent().map(|q| q.to_string_lossy().into_owned())
}

/// A path is absolute (on Unix) when it starts at the root `/`.
pub open spec fn is_absolute(p: Seq<char>) -> bool {
    p.len() > 0 && p[0] == '/'
}

/// Whether a path is absolute, as `Path::is_absolute` decides on Unix.
pub fn path_is_absolute(p: &str) -> (b: bool)
    ensures
        b == is_absolute(p@),
{
    if p.is_empty() {
        false
    } else {
        p.get_char(0) == '/'
    }
}

} // verus!
