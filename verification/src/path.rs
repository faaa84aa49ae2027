//! Paths of files, which the library carries through and does not look into.

use vstd::prelude::*;

verus! {

/// Declares `std::path::PathBuf`. Nothing is claimed of it: a path is only carried through.
#[verifier::external_type_specification]
#[verifier::external_body]
pub struct ExPathBuf(std::path::PathBuf);

} // verus!
