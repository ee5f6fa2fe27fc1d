//! Where a resource lives on disk.
//!
//! A location is a `PathBuf` that the library carries through unopened: it is
//! stored at registration, handed out with every request for the file system
//! and given back when the resource is unregistered.

use std::path::PathBuf;
use vstd::prelude::*;

verus! {

/// `std::path::PathBuf`, as a type whose values the verifier compares but
/// never looks into.
#[verifier::external_type_specification]
#[verifier::external_body]
pub struct ExPathBuf(std::path::PathBuf);

/// `PathBuf::clone`: the copy is the path that was cloned.
pub assume_specification[ <PathBuf as Clone>::clone ](path: &PathBuf) -> (copy: PathBuf)
    ensures
        copy == *path,
;

/// `Path::extension`, with an extension that is not valid Unicode counted as
/// absent.  How a path is split into components depends on the platform, so
/// nothing is claimed of the result.
#[verifier::external_body]
pub(crate) fn extension_of(path: &PathBuf) -> (extension: Option<String>) {
    match path.extension() {
        Some(extension) => extension.to_str().map(String::from),
        None => None,
    }
}

} // verus!
