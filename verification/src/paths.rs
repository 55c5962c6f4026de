//! `std::path::PathBuf` and `std::time::Duration`, carried through the
//! library's types as opaque values.
use std::path::PathBuf;
use std::time::Duration;
use vstd::prelude::*;

verus! {

/// An owned filesystem path (`std::path::PathBuf`); the library only stores
/// and returns paths.
#[verifier::external_type_specification]
#[verifier::external_body]
pub struct ExPathBuf(PathBuf);

/// `PathBuf::clone` returns an equal path.
pub assume_specification[ <PathBuf as Clone>::clone ](p: &PathBuf) -> (r: PathBuf)
    ensures
        r == *p,
;

/// `Duration::clone` returns an equal duration.
pub assume_specification[ <Duration as Clone>::clone ](d: &Duration) -> (r: Duration)
    ensures
        r == *d,
;

/// The text that `Path::display` gives a path (on this platform, the path's
/// characters, with sequences that are not valid Unicode replaced).
pub uninterp spec fn path_display(p: PathBuf) -> Seq<char>;

/// `p.display().to_string()`: the path's display text, named
/// [`path_display`].
#[verifier::external_body]
pub(crate) fn path_text(p: &PathBuf) -> (r: String)
    ensures
        r@ == path_display(*p),
{
    p.display().to_string()
}

/// The whole seconds of a duration (`Duration::as_secs`).
pub uninterp spec fn duration_secs(d: Duration) -> u64;

/// `Duration::as_secs`: the number of whole seconds in the duration, named
/// [`duration_secs`].
#[verifier::external_body]
pub(crate) fn whole_secs(d: &Duration) -> (r: u64)
    ensures
        r == duration_secs(*d),
{
    d.as_secs()
}

} // verus!
