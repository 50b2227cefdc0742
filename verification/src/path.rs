//! Paths held as strings, with the meaning that Unix gives them.

use vstd::prelude::*;

verus! {

/// A path is absolute when it starts at the root.
pub open spec fn is_absolute(p: Seq<char>) -> bool {
    p.len() > 0 && p[0] == '/'
}

/// `Path::join`: an absolute `p` replaces `base`; otherwise `p` is appended,
/// with a separator unless `base` is empty or already ends in one.
pub open spec fn join(base: Seq<char>, p: Seq<char>) -> Seq<char> {
    if is_absolute(p) {
        p
    } else if base.len() == 0 || base.last() == '/' {
        base + p
    } else {
        base.push('/') + p
    }
}

/// Whether `p` is absolute.
pub fn path_is_absolute(p: &str) -> (b: bool)
    ensures
        b == is_absolute(p@),
{
    p.unicode_len() > 0 && p.get_char(0) == '/'
}

/// `base` joined with `p`.
pub fn path_join(base: &str, p: &str) -> (r: String)
    ensures
        r@ == join(base@, p@),
{
    if path_is_absolute(p) {
        p.to_owned()
    } else {
        let n = base.unicode_len();
        let mut r = base.to_owned();
        if n > 0 && base.get_char(n - 1) != '/' {
            crate::text::push_char(&mut r, '/');
        }
        r.append(p);
        r
    }
}

/// What `Path::file_name` gives for `p`: its last component, unless that is `..`.
pub uninterp spec fn path_file_name(p: Seq<char>) -> Option<Seq<char>>;

/// What `Path::parent` gives for `p`: `p` without its last component, if it has one.
pub uninterp spec fn path_parent(p: Seq<char>) -> Option<Seq<char>>;

/// What `Path::strip_prefix` gives for `p` and `base`: the rest of `p` when the
/// components of `base` begin those of `p`.
pub uninterp spec fn path_strip_prefix(p: Seq<char>, base: Seq<char>) -> Option<Seq<char>>;

/// Whether two paths are equal as `Path`s are compared: component by component.
pub uninterp spec fn path_equal(a: Seq<char>, b: Seq<char>) -> bool;

/// `Path::file_name` of std. The contract claims that the result is a function
/// of `p` alone, named `path_file_name`; a path given as a string has a UTF-8
/// file name, so the conversion back to a string loses nothing.
#[verifier::external_body]
pub(crate) fn file_name(p: &str) -> (r: Option<String>)
    ensures
        r matches Some(s) ==> path_file_name(p@) == Some(s@),
        r is None ==> path_file_name(p@) is None,
{
    match std::path::Path::new(p).file_name() {
        Some(n) => Some(n.to_string_lossy().into_owned()),
        None => None,
    }
}

/// `Path::parent` of std. The contract claims that the result is a function of
/// `p` alone, named `path_parent`.
#[verifier::external_body]
pub(crate) fn parent(p: &str) -> (r: Option<String>)
    ensures
        r matches Some(s) ==> path_parent(p@) == Some(s@),
        r is None ==> path_parent(p@) is None,
{
    match std::path::Path::new(p).parent() {
        Some(q) => Some(q.to_string_lossy().into_owned()),
        None => None,
    }
}

/// `Path::strip_prefix` of std, with the error mapped to `None`. The contract
/// claims that the result is a function of both paths, named `path_strip_prefix`.
#[verifier::external_body]
pub(crate) fn strip_prefix(p: &str, base: &str) -> (r: Option<String>)
    ensures
        r matches Some(s) ==> path_strip_prefix(p@, base@) == Some(s@),
        r is None ==> path_strip_prefix(p@, base@) is None,
{
    match std::path::Path::new(p).strip_prefix(base) {
        Ok(q) => Some(q.to_string_lossy().into_owned()),
        Err(_) => None,
    }
}

/// `==` on `Path` of std. The contract claims that the result is a function of
/// both paths, named `path_equal`, and that a path equals itself.
#[verifier::external_body]
pub(crate) fn paths_equal(a: &str, b: &str) -> (r: bool)
    ensures
        r == path_equal(a@, b@),
        a@ == b@ ==> r,
{
    std::path::Path::new(a) == std::path::Path::new(b)
}

} // verus!
