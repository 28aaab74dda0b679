//! File paths, which are carried through and rendered as text.

use vstd::prelude::*;
use std::path::PathBuf;

verus! {

/// An owned path.
#[verifier::external_type_specification]
#[verifier::external_body]
pub struct ExPathBuf(std::path::PathBuf);

/// `std::path::PathBuf::clone`: the same path.
pub assume_specification[ <PathBuf as Clone>::clone ](path: &PathBuf) -> (r: PathBuf)
    ensures
        r == *path,
;

/// The path as text, with a replacement mark for what is not Unicode.
pub uninterp spec fn path_lossy_text(path: PathBuf) -> Seq<char>;

/// The path as it is shown to a programmer, quoted and escaped.
pub uninterp spec fn path_debug_text(path: PathBuf) -> Seq<char>;

/// The path as text.
///
/// `std::path::Path::to_string_lossy`: a function of the path.
#[verifier::external_body]
pub(crate) fn path_lossy(path: &PathBuf) -> (r: String)
    ensures
        r@ == path_lossy_text(*path),
{
    path.to_string_lossy().into_owned()
}

/// The path for a programmer.
///
/// `std::fmt::Debug` of `std::path::PathBuf`: a function of the path.
#[verifier::external_body]
pub(crate) fn path_debug(path: &PathBuf) -> (r: String)
    ensures
        r@ == path_debug_text(*path),
{
    format!("{path:?}")
}

} // verus!
