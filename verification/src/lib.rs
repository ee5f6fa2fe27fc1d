//! A cache of named, file-backed resources that notices when a file changed on
//! disk and serves its current bytes together with an entity tag.
//!
//! The library performs no input or output itself.  Every operation that needs
//! the file system is a step function: it is handed what the file system
//! answered to the previous request and says what to ask next.  Whoever owns
//! the store runs the loop:
//!
//! ```text
//! event = Start
//! loop:
//!     match store.get_resource(name, event):
//!         Stat(path)        => event = Metadata(metadata of path)
//!         Read(path, seen)  => event = Contents(seen, bytes of path)
//!         Done(result)      => return result
//! ```
//!
//! * [`store`] holds [`store::FileResources`], the store and its operations.
//! * [`model`] says what a store is and what each operation does to it.
//! * [`laws`] puts the steps of an operation together and states what holds of
//!   whole fetches, registrations and sweeps.
//! * [`protocol`] holds the events and steps that the operations exchange
//!   with their caller.
//! * [`timestamp`] holds modification times and the staleness policy.
//! * [`etag`] holds entity tags and their computation.
//! * [`content_type`] derives content-type labels from file name extensions.
//! * [`location`] declares the paths that the store carries.
//! * [`response`] holds what a caller answers a request with.

pub mod content_type;
pub mod etag;
pub mod laws;
pub mod location;
pub mod model;
pub mod protocol;
pub mod response;
pub mod store;
pub mod timestamp;
