//! The exchange between the store and whoever performs its file accesses.
//!
//! The store never touches the file system.  Each of its operations that
//! depends on a file is a step function: it takes a [`FileEvent`], which says
//! what the file system answered to the previous request, and returns a
//! [`Step`], which is either the next request or the operation's result.  An
//! operation starts with [`FileEvent::Start`] and is over with
//! [`Step::Done`].

use crate::timestamp::Timestamp;
use std::path::PathBuf;
use vstd::prelude::*;

verus! {

/// `std::io::Error`, as a type whose values the verifier compares but never
/// looks into.
#[verifier::external_type_specification]
#[verifier::external_body]
pub struct ExIoError(std::io::Error);

/// Why an operation of the store failed.
#[derive(Debug)]
pub enum ResourceError {
    /// No resource is registered under the name.
    NotFound,
    /// The file system refused an access; the error is handed on as it came.
    Io(std::io::Error),
}

/// What the file system answered.
#[derive(Debug)]
pub enum FileEvent {
    /// Nothing yet: the operation begins.
    Start,
    /// The answer to [`Step::Stat`]: the error that the metadata query met,
    /// or what the metadata say of the time of the last modification, which
    /// is that time or the error of asking for it.
    Metadata(Result<Result<Timestamp, std::io::Error>, std::io::Error>),
    /// The answer to [`Step::Read`]: the modification time that came with the
    /// request, and the file's full content or the error that reading met.
    Contents(Option<Timestamp>, Result<Vec<u8>, std::io::Error>),
}

/// What an operation of the store asks for next, or what it came to.
#[derive(Debug)]
pub enum Step<T> {
    /// Query the metadata of the file at this path and answer with
    /// [`FileEvent::Metadata`].
    Stat(PathBuf),
    /// Read the file at this path in full and answer with
    /// [`FileEvent::Contents`], giving back the modification time, which is
    /// `None` where the metadata could not tell it.
    Read(PathBuf, Option<Timestamp>),
    /// The operation is over, with this result.
    Done(Result<T, ResourceError>),
}

impl<T: View> View for Step<T> {
    type V = Step<T::V>;

    open spec fn view(&self) -> Step<T::V> {
        match *self {
            Step::Stat(path) => Step::Stat(path),
            Step::Read(path, seen) => Step::Read(path, seen),
            Step::Done(Ok(value)) => Step::Done(Ok(value@)),
            Step::Done(Err(error)) => Step::Done(Err(error)),
        }
    }
}

} // verus!
