//! File-system paths, held as strings, on hosts where `/` parts the elements of a path
//! and a path that begins with `/` is absolute. Joining is the library's own; cleaning
//! and taking the parent are left to `path_clean` and to the standard library, and their
//! results are named here and not spelled out.
//!
//! A path comes in as a string, so what these calls make of it is valid UTF-8 too, and
//! turning it back into a string loses nothing.

use vstd::prelude::*;
use vstd::string::StrSliceExecFns;
use vstd::string::StringExecFns;

verus! {

/// `part` adjoined to `base`: an absolute `part` takes the place of `base`; otherwise
/// `part` follows `base`, with a `/` between the two unless `base` is empty or ends in
/// one.
pub open spec fn path_join(base: Seq<char>, part: Seq<char>) -> Seq<char> {
    if part.len() > 0 && part[0] == '/' {
        part
    } else if base.len() == 0 || base.last() == '/' {
        base + part
    } else {
        base + seq!['/'] + part
    }
}

/// What `path_clean::clean` makes of `path`.
pub uninterp spec fn path_cleaned(path: Seq<char>) -> Seq<char>;

/// What `std::path::Path::parent` makes of `path`: the path without its last element,
/// or `None` where the path ends in a root or is empty.
pub uninterp spec fn path_parent(path: Seq<char>) -> Option<Seq<char>>;

/// Calls `std::path::Path::parent`, which gives the path without its last element, or
/// `None` where there is no such path. The result is a function of the path alone; it is
/// named, and nothing more is claimed of it.
#[verifier::external_body]
pub(crate) fn parent_path(path: &str) -> (r: Option<String>)
    ensures
        r.deep_view() == path_parent(path@),
{
    match std::path::Path::new(path).parent() {
        Some(dir) => Some(dir.to_string_lossy().into_owned()),
        None => None,
    }
}

/// Calls `path_clean::clean`, which removes `.` elements, doubled separators and, where
/// it can, `..` elements with the element before them, without touching the file
/// system. The result is a function of the path alone; it is named, and nothing more is
/// claimed of it.
#[verifier::external_body]
pub(crate) fn clean_path(path: &str) -> (r: String)
    ensures
        r@ == path_cleaned(path@),
{
    path_clean::clean(path).to_string_lossy().into_owned()
}

/// `part` adjoined to `base`.
pub fn join(base: &str, part: &str) -> (r: String)
    ensures
        r@ == path_join(base@, part@),
{
    if part.unicode_len() > 0 && part.get_char(0) == '/' {
        return part.to_owned();
    }
    let n = base.unicode_len();
    let mut r = base.to_owned();
    if n > 0 && base.get_char(n - 1) != '/' {
        r.push('/');
    }
    r.append(part);
    r
}

/// The directory that holds `path`; the current directory where `path` has no parent.
pub open spec fn dir_of(path: Seq<char>) -> Seq<char> {
    match path_parent(path) {
        Some(dir) => dir,
        None => "."@,
    }
}

/// The directory that holds `path`; the current directory where `path` has no parent.
pub fn parent_or_here(path: &str) -> (r: String)
    ensures
        r@ == dir_of(path@),
{
    match parent_path(path) {
        Some(dir) => dir,
        None => ".".to_owned(),
    }
}

/// `part` adjoined to `base`, then cleaned.
pub fn join_clean(base: &str, part: &str) -> (r: String)
    ensures
        r@ == path_cleaned(path_join(base@, part@)),
{
    let joined = join(base, part);
    clean_path(joined.as_str())
}

} // verus!
