use vstd::prelude::*;

use vstd::string::StringExecFns;

verus! {

/// The path `base` extended by `p`, as `std::path::Path::join` makes it on
/// the platform the library is built for (on Unix an absolute `p` replaces
/// `base`, and a `/` goes between the two unless `base` is empty or ends in
/// one; Windows also knows drive letters and `\\`).
pub uninterp spec fn joined_path(base: Seq<char>, p: Seq<char>) -> Seq<char>;

/// The last component of a path, as `std::path::Path::file_name` finds it.
pub uninterp spec fn file_name_of(path: Seq<char>) -> Option<Seq<char>>;

/// The path without its last component, as `std::path::Path::parent` finds
/// it.
pub uninterp spec fn parent_of(path: Seq<char>) -> Option<Seq<char>>;

/// The last component of a path.
///
/// Trusted: `std::path::Path::file_name`, its name taken as text (a part
/// of a `&str` is always valid text); the result is named `file_name_of`.
#[verifier::external_body]
fn file_name_call(path: &str) -> (r: Option<String>)
    ensures
        match file_name_of(path@) {
            Some(n) => r matches Some(x) && x@ == n,
            None => r is None,
        },
{
    std::path::Path::new(path).file_name().and_then(|s| s.to_str()).map(|s| s.to_string())
}

/// The parent of a path.
///
/// Trusted: `std::path::Path::parent`, taken as text; the result is named
/// `parent_of`.
#[verifier::external_body]
fn parent_call(path: &str) -> (r: Option<String>)
    ensures
        match parent_of(path@) {
            Some(n) => r matches Some(x) && x@ == n,
            None => r is None,
        },
{
    std::path::Path::new(path).parent().and_then(|s| s.to_str()).map(|s| s.to_string())
}

/// A path extended by another.
///
/// Trusted: `std::path::Path::join`, shown as text with `to_string_lossy`
/// (the joined path of two texts is text again, so nothing is lost); the
/// result is named `joined_path`.
#[verifier::external_body]
pub(crate) fn join_call(base: &str, p: &str) -> (r: String)
    ensures
        r@ == joined_path(base@, p@),
{
    std::path::Path::new(base).join(p).to_string_lossy().into_owned()
}

/// The text of a path part that may be missing, empty when it is.
pub open spec fn or_empty_spec(part: Option<Seq<char>>) -> Seq<char> {
    match part {
        Some(p) => p,
        None => Seq::empty(),
    }
}

/// A path part that may be missing, as text: empty when it is.
pub fn or_empty(part: Option<String>) -> (r: String)
    ensures
        r@ == or_empty_spec(
            match part {
                Some(p) => Some(p@),
                None => None,
            },
        ),
{
    match part {
        Some(p) => p,
        None => {
            let e = String::from_str("");
            proof {
                reveal_strlit("");
            }
            e
        },
    }
}

/// The last component of a path, or the empty text when it has none.
pub fn basename(path: &str) -> (r: String)
    ensures
        r@ == or_empty_spec(file_name_of(path@)),
{
    or_empty(file_name_call(path))
}

/// The directory part of a path, or the empty text when it has none.
pub fn dirname(path: &str) -> (r: String)
    ensures
        r@ == or_empty_spec(parent_of(path@)),
{
    or_empty(parent_call(path))
}

} // verus!
