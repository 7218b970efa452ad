//! Path operations of `std::path` on paths held as text.

use vstd::prelude::*;

use crate::model::opt_view;
use crate::text::{append_chars, chars_of, slice_of, string_of};

verus! {

/// What `Path::parent` returns for the path.
pub uninterp spec fn std_path_parent(p: Seq<char>) -> Option<Seq<char>>;

/// `Path::parent`: the path without its final component; `None` for the root
/// and for the empty path, as the documentation of `Path::parent` says.
#[verifier::external_body]
pub(crate) fn path_parent(p: &str) -> (r: Option<String>)
    ensures
        opt_view(r) == std_path_parent(p@),
        p@ == seq!['/'] ==> r is None,
        p@.len() == 0 ==> r is None,
{
    std::path::Path::new(p).parent().map(|q| q.to_string_lossy().into_owned())
}

/// What `Path::extension` returns for the path, as text.
pub uninterp spec fn std_path_extension(p: Seq<char>) -> Option<Seq<char>>;

/// `Path::extension` of the path; the extension of a `&str` path is always
/// valid UTF-8, so `to_str` cannot fail here.
#[verifier::external_body]
pub(crate) fn path_extension(p: &str) -> (r: Option<String>)
    ensures
        opt_view(r) == std_path_extension(p@),
{
    std::path::Path::new(p).extension().and_then(|e| e.to_str()).map(|e| e.to_owned())
}

/// What `Path::file_name` returns for the path, as text.
pub uninterp spec fn std_path_file_name(p: Seq<char>) -> Option<Seq<char>>;

/// `Path::file_name` of the path (lossless: the path is UTF-8 text).
#[verifier::external_body]
pub(crate) fn path_file_name(p: &str) -> (r: Option<String>)
    ensures
        opt_view(r) == std_path_file_name(p@),
{
    std::path::Path::new(p).file_name().map(|n| n.to_string_lossy().into_owned())
}

/// What `Path::with_file_name` returns for the path and file name, as text.
pub uninterp spec fn std_path_with_file_name(p: Seq<char>, name: Seq<char>) -> Seq<char>;

/// `Path::with_file_name`.
#[verifier::external_body]
pub(crate) fn path_with_file_name(p: &str, name: &str) -> (r: String)
    ensures
        r@ == std_path_with_file_name(p@, name@),
{
    std::path::Path::new(p).with_file_name(name).to_string_lossy().into_owned()
}

/// What `Path::eq` says of two text paths: equal when their components are.
pub uninterp spec fn std_path_eq(a: Seq<char>, b: Seq<char>) -> bool;

/// `Path::new(a) == Path::new(b)`: paths compare by their components, so equal
/// texts are equal paths.
#[verifier::external_body]
pub(crate) fn path_eq(a: &str, b: &str) -> (r: bool)
    ensures
        r == std_path_eq(a@, b@),
        a@ == b@ ==> r,
{
    std::path::Path::new(a) == std::path::Path::new(b)
}

/// `Path::join` on text: an absolute `p` replaces the base; otherwise `p` is
/// appended, with a `/` between unless the base is empty or already ends in one.
pub open spec fn path_join(base: Seq<char>, p: Seq<char>) -> Seq<char> {
    if p.len() > 0 && p[0] == '/' {
        p
    } else if base.len() > 0 && base.last() != '/' {
        base + seq!['/'] + p
    } else {
        base + p
    }
}

pub fn join_path(base: &Vec<char>, p: &Vec<char>) -> (r: Vec<char>)
    ensures
        r@ == path_join(base@, p@),
{
    if p.len() > 0 && p[0] == '/' {
        return slice_of(p, 0, p.len());
    }
    let mut r = slice_of(base, 0, base.len());
    if base.len() > 0 && base[base.len() - 1] != '/' {
        r.push('/');
    }
    append_chars(&mut r, p);
    assert(base@.subrange(0, base@.len() as int) =~= base@);
    r
}

/// `Path::join` of two text paths.
pub fn join_str(base: &str, p: &str) -> (r: String)
    ensures
        r@ == path_join(base@, p@),
{
    let b = chars_of(base);
    let q = chars_of(p);
    let j = join_path(&b, &q);
    string_of(&j)
}

} // verus!
