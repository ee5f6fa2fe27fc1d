//! The store of reloadable file resources.
//!
//! [`FileResources`] keeps its entries in a vector, in the order in which
//! their names were first registered.  Its view is the [`StoreView`] that the
//! vector stands for, and every operation is proved to compute the function
//! of [`crate::model`] that its contract names.

use crate::content_type::content_type_for;
use crate::etag::{compute_data_etag, EntityTag};
use crate::location::extension_of;
use crate::model::{ResourceView, StoreView, Verdict};
use crate::protocol::{FileEvent, ResourceError, Step};
use crate::timestamp::{is_stale, record, Timestamp};
use std::path::PathBuf;
use std::sync::Arc;
use vstd::prelude::*;

verus! {

/// `str`'s `==`: two strings are equal when they hold the same characters.
pub assume_specification[ <str as PartialEq>::eq ](a: &str, b: &str) -> (same: bool)
    ensures
        same == (a@ == b@),
;

/// One cached resource.
#[derive(Debug)]
struct Resource {
    name: &'static str,
    path: PathBuf,
    mime: String,
    data: Arc<Vec<u8>>,
    etag: EntityTag,
    mtime: Option<Timestamp>,
}

impl View for Resource {
    type V = ResourceView;

    closed spec fn view(&self) -> ResourceView {
        ResourceView {
            path: self.path,
            content_type: self.mime@,
            bytes: self.data@,
            etag: self.etag,
            mtime: self.mtime,
        }
    }
}

/// The names of the resources, in their order.
spec fn names(rs: Seq<Resource>) -> Seq<Seq<char>> {
    rs.map_values(|r: Resource| r.name@)
}

/// The model that a vector of resources with distinct names stands for.
spec fn model(rs: Seq<Resource>) -> StoreView {
    StoreView {
        entries: Map::new(
            |name: Seq<char>| names(rs).contains(name),
            |name: Seq<char>| rs[names(rs).index_of(name)]@,
        ),
        order: names(rs),
    }
}

/// The resource at position `i` is the entry that the model holds under its
/// name.
proof fn lemma_entry(rs: Seq<Resource>, i: int)
    requires
        names(rs).no_duplicates(),
        0 <= i < rs.len(),
    ensures
        names(rs)[i] == rs[i].name@,
        names(rs).contains(rs[i].name@),
        names(rs).index_of(rs[i].name@) == i,
        model(rs).entries.contains_key(rs[i].name@),
        model(rs).entries[rs[i].name@] == rs[i]@,
{
}

/// Replacing a resource by one of the same name replaces the entry of that
/// name in the model.
proof fn lemma_update(rs: Seq<Resource>, i: int, r: Resource)
    requires
        names(rs).no_duplicates(),
        0 <= i < rs.len(),
        r.name@ == rs[i].name@,
    ensures
        model(rs.update(i, r)) == model(rs).with_entry(r.name@, r@),
{
    let after = rs.update(i, r);
    assert(names(after) =~= names(rs));
    lemma_entry(rs, i);
    lemma_entry(after, i);
    assert forall|name: Seq<char>| names(rs).contains(name) && name != r.name@ implies rs[names(
        rs,
    ).index_of(name)]@ == after[names(rs).index_of(name)]@ by {
        let k = names(rs).index_of(name);
        assert(names(rs)[k] == name);
    }
    assert(model(after).entries =~= model(rs).entries.insert(r.name@, r@));
}

/// Appending a resource of a new name puts its entry into the model.
proof fn lemma_push(rs: Seq<Resource>, r: Resource)
    requires
        names(rs).no_duplicates(),
        !names(rs).contains(r.name@),
    ensures
        names(rs.push(r)).no_duplicates(),
        model(rs.push(r)) == model(rs).put(r.name@, r@),
{
    let after = rs.push(r);
    assert(names(after) =~= names(rs).push(r.name@));
    assert(names(after).no_duplicates()) by {
        assert forall|i: int, j: int|
            0 <= i < after.len() && 0 <= j < after.len() && i != j implies names(after)[i]
            != names(after)[j] by {
            if i < rs.len() {
                assert(names(rs)[i] == names(after)[i]);
            }
            if j < rs.len() {
                assert(names(rs)[j] == names(after)[j]);
            }
        }
    }
    lemma_entry(after, rs.len() as int);
    assert forall|name: Seq<char>| names(after).contains(name) <==> (name == r.name@ || names(
        rs,
    ).contains(name)) by {
        if names(after).contains(name) {
            let k = names(after).index_of(name);
            if k < rs.len() {
                assert(names(rs)[k] == name);
            }
        }
        if names(rs).contains(name) {
            let k = names(rs).index_of(name);
            assert(names(after)[k] == name);
        }
    }
    assert forall|name: Seq<char>| names(rs).contains(name) implies after[names(after).index_of(
        name,
    )]@ == rs[names(rs).index_of(name)]@ by {
        let k = names(rs).index_of(name);
        lemma_entry(after, k);
    }
    assert(model(after).entries =~= model(rs).entries.insert(r.name@, r@));
}

/// Taking the resource at position `i` out takes the entry of its name out
/// of the model.
proof fn lemma_remove(rs: Seq<Resource>, i: int)
    requires
        names(rs).no_duplicates(),
        0 <= i < rs.len(),
    ensures
        names(rs.remove(i)).no_duplicates(),
        model(rs.remove(i)) == model(rs).unregistered(rs[i].name@).0,
        model(rs).unregistered(rs[i].name@).1 == Some(rs[i].path),
{
    let after = rs.remove(i);
    let gone = rs[i].name@;
    lemma_entry(rs, i);
    assert(names(after) =~= names(rs).remove(i));
    assert forall|k: int| 0 <= k < after.len() implies names(after)[k] == names(rs)[if k < i {
        k
    } else {
        k + 1
    }] by {}
    assert forall|name: Seq<char>| names(after).contains(name) <==> (name != gone && names(
        rs,
    ).contains(name)) by {
        if names(after).contains(name) {
            let k = names(after).index_of(name);
            let from = if k < i {
                k
            } else {
                k + 1
            };
            assert(names(rs)[from] == name);
        }
        if name != gone && names(rs).contains(name) {
            let k = names(rs).index_of(name);
            let to = if k < i {
                k
            } else {
                k - 1
            };
            assert(names(after)[to] == name);
        }
    }
    assert forall|name: Seq<char>| names(after).contains(name) implies after[names(after).index_of(
        name,
    )]@ == rs[names(rs).index_of(name)]@ by {
        let k = names(after).index_of(name);
        let from = if k < i {
            k
        } else {
            k + 1
        };
        assert(names(rs)[from] == name);
        lemma_entry(rs, from);
    }
    assert(model(after).entries =~= model(rs).entries.remove(gone));
}

/// What the staleness check found, with the path to ask the file system for.
enum Finding {
    Stat(PathBuf),
    Read(PathBuf, Option<Timestamp>),
    Settled,
    Failed(std::io::Error),
}

impl Finding {
    /// The finding is the verdict `v` on `entry`.
    spec fn is_verdict(self, entry: ResourceView, v: Verdict) -> bool {
        match self {
            Finding::Stat(path) => v == Verdict::Stat && path == entry.path,
            Finding::Read(path, seen) => v == Verdict::Read(seen) && path == entry.path,
            Finding::Settled => v == Verdict::Settled,
            Finding::Failed(error) => v == Verdict::Failed(error),
        }
    }
}

/// Reloadable file resources.
#[derive(Debug)]
pub struct FileResources {
    resources: Vec<Resource>,
}

impl View for FileResources {
    type V = StoreView;

    closed spec fn view(&self) -> StoreView {
        model(self.resources@)
    }
}

impl FileResources {
    /// The store's invariant: see [`StoreView::valid`].
    pub open spec fn wf(&self) -> bool {
        self@.valid()
    }

    /// Create an instance of `FileResources`.
    pub fn new() -> (store: FileResources)
        ensures
            store.wf(),
            store@ == StoreView::empty(),
    {
        FileResources { resources: Vec::new() }
    }

    /// Looks `name` up.
    fn find(&self, name: &str) -> (found: Option<usize>)
        requires
            self.wf(),
        ensures
            match found {
                Some(i) => i < self.resources@.len() && self.resources@[i as int].name@ == name@,
                None => !self@.entries.contains_key(name@),
            },
    {
        let mut i: usize = 0;
        while i < self.resources.len()
            invariant
                i <= self.resources.len(),
                forall|k: int| 0 <= k < i ==> names(self.resources@)[k] != name@,
            decreases self.resources.len() - i,
        {
            if self.resources[i].name.eq(name) {
                return Some(i);
            }
            i = i + 1;
        }
        None
    }

    /// Applies the staleness check to the entry at position `index`.
    fn refresh(&mut self, index: usize, event: FileEvent) -> (finding: Finding)
        requires
            old(self).wf(),
            index < old(self).resources@.len(),
        ensures
            final(self).wf(),
            final(self).resources@.len() == old(self).resources@.len(),
            ({
                let name = old(self).resources@[index as int].name@;
                let entry = old(self)@.entries[name];
                &&& final(self)@ == old(self)@.with_entry(name, entry.refreshed(event))
                &&& finding.is_verdict(entry, entry.verdict(event))
            }),
    {
        let ghost before = self.resources@;
        proof {
            lemma_entry(before, index as int);
        }
        let finding = match event {
            FileEvent::Start => Finding::Stat(self.resources[index].path.clone()),
            FileEvent::Metadata(Err(error)) => Finding::Failed(error),
            FileEvent::Metadata(Ok(modified)) => {
                let seen = record(modified);
                if is_stale(self.resources[index].mtime, seen) {
                    Finding::Read(self.resources[index].path.clone(), seen)
                } else {
                    Finding::Settled
                }
            },
            FileEvent::Contents(_, Err(error)) => Finding::Failed(error),
            FileEvent::Contents(seen, Ok(data)) => {
                if is_stale(self.resources[index].mtime, seen) {
                    let etag = compute_data_etag(data.as_slice());
                    self.resources[index].data = Arc::new(data);
                    self.resources[index].etag = etag;
                    self.resources[index].mtime = seen;
                }
                Finding::Settled
            },
        };
        proof {
            let now = self.resources@[index as int];
            assert(self.resources@ =~= before.update(index as int, now));
            lemma_update(before, index as int, now);
            old(self)@.lemma_with_entry(before[index as int].name@, now@);
        }
        finding
    }

    /// Hands out the entry at position `index`.
    fn serve(&self, index: usize) -> (out: (String, Arc<Vec<u8>>, EntityTag))
        requires
            index < self.resources@.len(),
        ensures
            out@ == self.resources@[index as int]@.served(),
    {
        let resource = &self.resources[index];
        (resource.mime.clone(), resource.data.clone(), resource.etag)
    }

    /// Get the specific resource: one step of a fetch of `name`.
    ///
    /// Begin with [`FileEvent::Start`] and answer every request until the
    /// fetch is [`Step::Done`].  The file's content is asked for only when
    /// its modification time shows that the cached bytes are stale; a failed
    /// access fails the fetch and leaves the entry as it was.
    pub fn get_resource(&mut self, name: &str, event: FileEvent) -> (step: Step<
        (String, Arc<Vec<u8>>, EntityTag),
    >)
        requires
            old(self).wf(),
        ensures
            final(self).wf(),
            (final(self)@, step@) == old(self)@.fetched(name@, event),
    {
        match self.find(name) {
            None => Step::Done(Err(ResourceError::NotFound)),
            Some(index) => {
                proof {
                    lemma_entry(self.resources@, index as int);
                }
                match self.refresh(index, event) {
                    Finding::Stat(path) => Step::Stat(path),
                    Finding::Read(path, seen) => Step::Read(path, seen),
                    Finding::Failed(error) => Step::Done(Err(ResourceError::Io(error))),
                    Finding::Settled => {
                        proof {
                            lemma_entry(self.resources@, index as int);
                        }
                        Step::Done(Ok(self.serve(index)))
                    },
                }
            },
        }
    }

    /// Register a resource from a path and it can be reloaded automatically:
    /// one step of registering the file at `path` under `name`.
    ///
    /// Begin with [`FileEvent::Start`] and answer every request until the
    /// registration is [`Step::Done`].  The content type is derived from the
    /// extension that `path` has; see [`Self::register_with_extension`] for
    /// the registration with the extension given.
    pub fn register_resource_file(&mut self, name: &'static str, path: PathBuf, event: FileEvent)
        -> (step: Step<()>)
        requires
            old(self).wf(),
        ensures
            final(self).wf(),
            exists|extension: Option<Seq<char>>|
                (final(self)@, step@) == #[trigger] old(self)@.registered(
                    name@,
                    path,
                    extension,
                    event,
                ),
    {
        let extension = extension_of(&path);
        match &extension {
            Some(ext) => self.register_with_extension(name, path, Some(ext.as_str()), event),
            None => self.register_with_extension(name, path, None, event),
        }
    }

    /// One step of registering the file at `path` under `name`, with the
    /// extension from which the content type is derived given apart from the
    /// path.
    pub fn register_with_extension(
        &mut self,
        name: &'static str,
        path: PathBuf,
        extension: Option<&str>,
        event: FileEvent,
    ) -> (step: Step<()>)
        requires
            old(self).wf(),
        ensures
            final(self).wf(),
            (final(self)@, step@) == old(self)@.registered(
                name@,
                path,
                match extension {
                    Some(ext) => Some(ext@),
                    None => None,
                },
                event,
            ),
    {
        match event {
            FileEvent::Start => Step::Stat(path),
            FileEvent::Metadata(Err(error)) => Step::Done(Err(ResourceError::Io(error))),
            FileEvent::Metadata(Ok(modified)) => Step::Read(path, record(modified)),
            FileEvent::Contents(_, Err(error)) => Step::Done(Err(ResourceError::Io(error))),
            FileEvent::Contents(seen, Ok(data)) => {
                let ghost before = self.resources@;
                let etag = compute_data_etag(data.as_slice());
                let mime = content_type_for(extension);
                let resource = Resource { name, path, mime, data: Arc::new(data), etag, mtime: seen };
                let ghost entry = resource@;
                match self.find(name) {
                    Some(index) => {
                        proof {
                            lemma_entry(before, index as int);
                            lemma_update(before, index as int, resource);
                        }
                        self.resources[index] = resource;
                    },
                    None => {
                        proof {
                            lemma_push(before, resource);
                        }
                        self.resources.push(resource);
                    },
                }
                proof {
                    old(self)@.lemma_put(name@, entry);
                }
                Step::Done(Ok(()))
            },
        }
    }

    /// Unregister a resource from a file by a name.  Returns the path of the
    /// file that backed it, or `None` where the name was not registered.
    pub fn unregister_resource_file(&mut self, name: &str) -> (path: Option<PathBuf>)
        requires
            old(self).wf(),
        ensures
            final(self).wf(),
            (final(self)@, path) == old(self)@.unregistered(name@),
    {
        let ghost before = self.resources@;
        match self.find(name) {
            Some(index) => {
                let resource = self.resources.remove(index);
                proof {
                    lemma_remove(before, index as int);
                    old(self)@.lemma_unregistered(name@);
                }
                Some(resource.path)
            },
            None => None,
        }
    }

    /// Reload resources if needed: one step of a sweep over all entries, in
    /// the order of the store's model.
    ///
    /// Begin with cursor 0 and [`FileEvent::Start`]; hand each returned cursor
    /// back with the answer to the returned request, until the sweep is
    /// [`Step::Done`].  The first failed access ends the sweep with its
    /// error.
    pub fn reload_if_needed(&mut self, cursor: usize, event: FileEvent) -> (out: (usize, Step<()>))
        requires
            old(self).wf(),
        ensures
            final(self).wf(),
            (final(self)@, out.0 as int, out.1@) == old(self)@.swept(cursor as int, event),
    {
        if cursor >= self.resources.len() {
            return (cursor, Step::Done(Ok(())));
        }
        proof {
            lemma_entry(self.resources@, cursor as int);
            if cursor + 1 < self.resources@.len() {
                lemma_entry(self.resources@, cursor + 1);
            }
        }
        match self.refresh(cursor, event) {
            Finding::Stat(path) => (cursor, Step::Stat(path)),
            Finding::Read(path, seen) => (cursor, Step::Read(path, seen)),
            Finding::Failed(error) => (cursor, Step::Done(Err(ResourceError::Io(error)))),
            Finding::Settled => {
                let next: usize = cursor + 1;
                if next < self.resources.len() {
                    proof {
                        lemma_entry(self.resources@, next as int);
                    }
                    (next, Step::Stat(self.resources[next].path.clone()))
                } else {
                    (next, Step::Done(Ok(())))
                }
            },
        }
    }
}

impl Default for FileResources {
    fn default() -> (store: FileResources)
        ensures
            store.wf(),
            store@ == StoreView::empty(),
    {
        FileResources::new()
    }
}

} // verus!
