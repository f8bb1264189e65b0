//! Paths of targets.

use vstd::prelude::*;
use std::path::PathBuf;

verus! {

/// `std::path::PathBuf`. Nothing is said of what it holds.
#[verifier::external_type_specification]
#[verifier::external_body]
pub struct ExPathBuf(PathBuf);

/// The path of a target, with its grist and the member of an archive that
/// it names, where it has them.
#[derive(Debug, PartialEq)]
pub struct Path {
    path: PathBuf,
    grist: Option<String>,
    member: Option<String>,
}

} // verus!
