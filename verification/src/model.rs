//! The mathematical model of the store and of its operations.
//!
//! A store is modelled as a map from names to entries, together with the
//! order in which a sweep visits the names.  What each operation does is
//! written down here once, as a function on that model; the executable
//! operations of [`crate::store::FileResources`] are proved to compute
//! exactly these functions.

use crate::content_type::content_type_of;
use crate::etag::{etag_of, EntityTag};
use crate::protocol::{FileEvent, ResourceError, Step};
use crate::timestamp::{recorded, stale, Timestamp};
use std::path::PathBuf;
use vstd::prelude::*;

verus! {

/// The model of one cached resource.
pub struct ResourceView {
    /// Where the backing file lives; fixed at registration.
    pub path: PathBuf,
    /// The content-type label; fixed at registration.
    pub content_type: Seq<char>,
    /// The file's content as of the last read.
    pub bytes: Seq<u8>,
    /// The entity tag of `bytes`.
    pub etag: EntityTag,
    /// The file's modification time as of the last read, if it was known.
    pub mtime: Option<Timestamp>,
}

/// The model of a store.
#[verifier::ext_equal]
pub struct StoreView {
    /// The entry registered under each name.
    pub entries: Map<Seq<char>, ResourceView>,
    /// The registered names, in the order in which a sweep visits them: the
    /// order in which they were first registered.
    pub order: Seq<Seq<char>>,
}

/// What a successful fetch hands out: content type, bytes and entity tag.
pub type Served = (Seq<char>, Seq<u8>, EntityTag);

/// What the staleness check of one entry comes to.
pub enum Verdict {
    /// The file's metadata is needed.
    Stat,
    /// The entry is stale: the file's content is needed.  Carries the
    /// modification time that was seen.
    Read(Option<Timestamp>),
    /// The entry is up to date.
    Settled,
    /// The file system refused the access.
    Failed(std::io::Error),
}

impl ResourceView {
    /// The entry carries the entity tag of its own bytes.
    pub open spec fn consistent(self) -> bool {
        self.etag == etag_of(self.bytes)
    }

    /// What a fetch of the entry hands out.
    pub open spec fn served(self) -> Served {
        (self.content_type, self.bytes, self.etag)
    }

    /// The entry with freshly read `bytes`, last modified at `seen`.
    pub open spec fn reloaded(self, seen: Option<Timestamp>, bytes: Seq<u8>) -> ResourceView {
        ResourceView { bytes, etag: etag_of(bytes), mtime: seen, ..self }
    }

    /// The entry after its staleness check has taken in `event`.  Only
    /// freshly read content for a stale entry changes it, and then bytes,
    /// entity tag and modification time are replaced together.
    pub open spec fn refreshed(self, event: FileEvent) -> ResourceView {
        match event {
            FileEvent::Contents(seen, Ok(data)) => if stale(self.mtime, seen) {
                self.reloaded(seen, data@)
            } else {
                self
            },
            _ => self,
        }
    }

    /// What the staleness check of the entry comes to on `event`.
    ///
    /// The check first asks for the file's metadata.  A failed query fails
    /// the check.  With the modification time in hand, or the word that the
    /// metadata cannot tell it, the content is asked for exactly when the
    /// entry is [`stale`].  A failed read fails the check; content that was
    /// read settles it.
    pub open spec fn verdict(self, event: FileEvent) -> Verdict {
        match event {
            FileEvent::Start => Verdict::Stat,
            FileEvent::Metadata(Err(error)) => Verdict::Failed(error),
            FileEvent::Metadata(Ok(modified)) => if stale(self.mtime, recorded(modified)) {
                Verdict::Read(recorded(modified))
            } else {
                Verdict::Settled
            },
            FileEvent::Contents(_, Err(error)) => Verdict::Failed(error),
            FileEvent::Contents(_, Ok(_)) => Verdict::Settled,
        }
    }

    /// The step that stands for the verdict `v` on the entry, with `settled`
    /// as the step to take once the entry is up to date.
    pub open spec fn step_for<T>(self, v: Verdict, settled: Step<T>) -> Step<T> {
        match v {
            Verdict::Stat => Step::Stat(self.path),
            Verdict::Read(seen) => Step::Read(self.path, seen),
            Verdict::Settled => settled,
            Verdict::Failed(error) => Step::Done(Err(ResourceError::Io(error))),
        }
    }
}

impl StoreView {
    /// The store that holds nothing.
    pub open spec fn empty() -> StoreView {
        StoreView { entries: Map::empty(), order: Seq::empty() }
    }

    /// The invariant of a store: the sweep order lists every registered name
    /// once and no other, and every entry carries the entity tag of its own
    /// bytes.
    pub open spec fn valid(self) -> bool {
        &&& self.order.no_duplicates()
        &&& forall|name: Seq<char>| self.entries.contains_key(name) <==> self.order.contains(name)
        &&& forall|name: Seq<char>|
            self.entries.contains_key(name) ==> (#[trigger] self.entries[name]).consistent()
    }

    /// The store with `entry` in the place of the entry of `name`.
    pub open spec fn with_entry(self, name: Seq<char>, entry: ResourceView) -> StoreView {
        StoreView { entries: self.entries.insert(name, entry), order: self.order }
    }

    /// The store after a fetch of `name` has taken in `event`, and the step
    /// that the fetch takes.
    ///
    /// An unregistered name fails with `NotFound`.  Otherwise the staleness
    /// check is applied to the entry; once it settles, the fetch hands out
    /// the entry as it then stands.
    pub open spec fn fetched(self, name: Seq<char>, event: FileEvent) -> (StoreView, Step<Served>) {
        if self.entries.contains_key(name) {
            let entry = self.entries[name];
            let fresh = entry.refreshed(event);
            (
                self.with_entry(name, fresh),
                entry.step_for(entry.verdict(event), Step::Done(Ok(fresh.served()))),
            )
        } else {
            (self, Step::Done(Err(ResourceError::NotFound)))
        }
    }

    /// The store after one step of a sweep that stands at position `cursor`
    /// of the sweep order, the position at which the sweep stands afterwards,
    /// and the step that the sweep takes.
    ///
    /// The staleness check is applied to the entry at `cursor`.  Once it
    /// settles the sweep moves on: it asks for the metadata of the next
    /// entry, or is done when there is none.  A failed access ends the sweep;
    /// what earlier steps reloaded stays reloaded.
    pub open spec fn swept(self, cursor: int, event: FileEvent) -> (StoreView, int, Step<()>) {
        if 0 <= cursor < self.order.len() {
            let name = self.order[cursor];
            let entry = self.entries[name];
            let v = entry.verdict(event);
            let onward = if cursor + 1 < self.order.len() {
                Step::Stat(self.entries[self.order[cursor + 1]].path)
            } else {
                Step::Done(Ok(()))
            };
            (
                self.with_entry(name, entry.refreshed(event)),
                if v is Settled {
                    cursor + 1
                } else {
                    cursor
                },
                entry.step_for(v, onward),
            )
        } else {
            (self, cursor, Step::Done(Ok(())))
        }
    }

    /// The store with `entry` registered under `name`, over any earlier entry
    /// of that name.  A new name goes to the end of the sweep order.
    pub open spec fn put(self, name: Seq<char>, entry: ResourceView) -> StoreView {
        StoreView {
            entries: self.entries.insert(name, entry),
            order: if self.entries.contains_key(name) {
                self.order
            } else {
                self.order.push(name)
            },
        }
    }

    /// The store after one step of registering the file at `path`, whose
    /// name has the given extension, under `name`, and the step that the
    /// registration takes.
    ///
    /// The registration asks for the file's metadata, then for its content.
    /// A failed access fails it and leaves the store as it was.  With the
    /// content in hand it puts the new entry into the store; a modification
    /// time that the file system could not tell is recorded as unknown.
    pub open spec fn registered(
        self,
        name: Seq<char>,
        path: PathBuf,
        extension: Option<Seq<char>>,
        event: FileEvent,
    ) -> (StoreView, Step<()>) {
        match event {
            FileEvent::Start => (self, Step::Stat(path)),
            FileEvent::Metadata(Err(error)) => (self, Step::Done(Err(ResourceError::Io(error)))),
            FileEvent::Metadata(Ok(modified)) => (self, Step::Read(path, recorded(modified))),
            FileEvent::Contents(_, Err(error)) => (
                self,
                Step::Done(Err(ResourceError::Io(error))),
            ),
            FileEvent::Contents(seen, Ok(data)) => (
                self.put(
                    name,
                    ResourceView {
                        path,
                        content_type: content_type_of(extension),
                        bytes: data@,
                        etag: etag_of(data@),
                        mtime: seen,
                    },
                ),
                Step::Done(Ok(())),
            ),
        }
    }

    /// The store without the entry of `name`, and that entry's path; the
    /// store as it was, and no path, where the name is not registered.
    pub open spec fn unregistered(self, name: Seq<char>) -> (StoreView, Option<PathBuf>) {
        if self.entries.contains_key(name) {
            (
                StoreView {
                    entries: self.entries.remove(name),
                    order: self.order.remove(self.order.index_of(name)),
                },
                Some(self.entries[name].path),
            )
        } else {
            (self, None)
        }
    }

    /// Replacing the entry of a registered name by one that carries the tag
    /// of its own bytes keeps the store valid.
    pub proof fn lemma_with_entry(self, name: Seq<char>, entry: ResourceView)
        requires
            self.valid(),
            self.entries.contains_key(name),
            entry.consistent(),
        ensures
            self.with_entry(name, entry).valid(),
    {
    }

    /// Registering an entry that carries the tag of its own bytes keeps the
    /// store valid.
    pub proof fn lemma_put(self, name: Seq<char>, entry: ResourceView)
        requires
            self.valid(),
            entry.consistent(),
        ensures
            self.put(name, entry).valid(),
    {
        let after = self.put(name, entry);
        if self.entries.contains_key(name) {
            assert(self.order.contains(name));
        } else {
            // The name is new: it goes to the end of the order, where it
            // occurs for the first time.
            assert(!self.order.contains(name));
            assert(after.order[self.order.len() as int] == name);
            assert(after.order.no_duplicates());
            assert forall|other: Seq<char>|
                after.entries.contains_key(other) <==> after.order.contains(other) by {
                if self.order.contains(other) {
                    let k = self.order.index_of(other);
                    assert(after.order[k] == other);
                }
                if after.order.contains(other) && other != name {
                    let k = after.order.index_of(other);
                    assert(self.order[k] == other);
                }
            }
        }
    }

    /// Unregistering a name keeps the store valid and leaves the name
    /// unregistered.
    pub proof fn lemma_unregistered(self, name: Seq<char>)
        requires
            self.valid(),
        ensures
            self.unregistered(name).0.valid(),
            !self.unregistered(name).0.entries.contains_key(name),
    {
        if self.entries.contains_key(name) {
            let after = self.unregistered(name).0;
            assert(self.order.contains(name));
            let at = self.order.index_of(name);
            // Taking position `at` out shifts the later names down by one.
            self.order.remove_ensures(at);
            assert(after.order.no_duplicates());
            assert forall|other: Seq<char>|
                after.entries.contains_key(other) <==> after.order.contains(other) by {
                if after.order.contains(other) {
                    let k = after.order.index_of(other);
                    let from = if k < at {
                        k
                    } else {
                        k + 1
                    };
                    assert(self.order[from] == other);
                    assert(self.order.contains(other));
                }
                if after.entries.contains_key(other) {
                    assert(self.order.contains(other));
                    let k = self.order.index_of(other);
                    let to = if k < at {
                        k
                    } else {
                        k - 1
                    };
                    assert(after.order[to] == other);
                }
            }
        }
    }
}

} // verus!
