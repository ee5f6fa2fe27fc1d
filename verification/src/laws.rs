//! What holds of whole operations.
//!
//! The operations of the store are step functions.  This module puts the
//! steps together: [`StoreView::fetch`] and [`StoreView::register`] say what
//! an operation comes to when every request is answered from the state of
//! the backing file, and the proof functions state what follows for every
//! store and every file.

use crate::content_type::content_type_of;
use crate::etag::{differ_in_one_byte, etag_of, law_one_changed_byte_changes_the_tag};
use crate::model::{ResourceView, Served, StoreView};
use crate::protocol::{FileEvent, ResourceError, Step};
use crate::timestamp::{recorded, stale, Timestamp};
use std::path::PathBuf;
use vstd::prelude::*;

verus! {

/// What the file system has to say about one file.
pub struct FileState {
    /// What a metadata query comes to: an error, or what the metadata say
    /// of the modification time, which is that time or an error.
    pub metadata: Result<Result<Timestamp, std::io::Error>, std::io::Error>,
    /// What reading the file comes to: its content, or an error.
    pub contents: Result<Vec<u8>, std::io::Error>,
}

impl FileState {
    /// The answer to a request about the file.
    pub open spec fn answer<T>(self, request: Step<T>) -> FileEvent {
        match request {
            Step::Stat(_) => FileEvent::Metadata(self.metadata),
            Step::Read(_, seen) => FileEvent::Contents(seen, self.contents),
            Step::Done(_) => FileEvent::Start,
        }
    }
}

/// How an operation ended.
pub struct Outcome<T> {
    /// The store after the operation.
    pub store: StoreView,
    /// The last step of the operation.
    pub step: Step<T>,
    /// Whether the operation asked for the file's content.
    pub read: bool,
}

impl StoreView {
    /// A whole fetch of `name`, with every request answered from `file`.
    pub open spec fn fetch(self, name: Seq<char>, file: FileState) -> Outcome<Served> {
        let (s1, first) = self.fetched(name, FileEvent::Start);
        if first is Done {
            Outcome { store: s1, step: first, read: false }
        } else {
            let (s2, second) = s1.fetched(name, file.answer(first));
            if second is Done {
                Outcome { store: s2, step: second, read: false }
            } else {
                let (s3, third) = s2.fetched(name, file.answer(second));
                Outcome { store: s3, step: third, read: second is Read }
            }
        }
    }

    /// A whole registration under `name` of the file at `path`, whose name
    /// has the given extension, with every request answered from `file`.
    pub open spec fn register(
        self,
        name: Seq<char>,
        path: PathBuf,
        extension: Option<Seq<char>>,
        file: FileState,
    ) -> Outcome<()> {
        let (s1, first) = self.registered(name, path, extension, FileEvent::Start);
        let (s2, second) = s1.registered(name, path, extension, file.answer(first));
        if second is Done {
            Outcome { store: s2, step: second, read: false }
        } else {
            let (s3, third) = s2.registered(name, path, extension, file.answer(second));
            Outcome { store: s3, step: third, read: second is Read }
        }
    }

    /// A whole sweep from position `cursor` of the sweep order on, with every
    /// request answered from the file at the requested path: one entry after
    /// the other is fetched, up to the first fetch that fails.
    pub open spec fn sweep(self, cursor: int, files: spec_fn(PathBuf) -> FileState) -> (
        StoreView,
        Result<(), ResourceError>,
    )
        decreases self.order.len() - cursor,
    {
        if 0 <= cursor < self.order.len() {
            let name = self.order[cursor];
            let checked = self.fetch(name, files(self.entries[name].path));
            match checked.step {
                Step::Done(Err(error)) => (checked.store, Err(error)),
                _ => checked.store.sweep(cursor + 1, files),
            }
        } else {
            (self, Ok(()))
        }
    }

    /// The steps of a sweep that stands at position `cursor` and is handed
    /// `event`, with every request answered from the file at the requested
    /// path: the store and the step at which the sweep is done, or at which
    /// it stands after `fuel` more requests.
    pub open spec fn sweep_steps(
        self,
        cursor: int,
        event: FileEvent,
        files: spec_fn(PathBuf) -> FileState,
        fuel: nat,
    ) -> (StoreView, Step<()>)
        decreases fuel,
    {
        let (next, at, step) = self.swept(cursor, event);
        match step {
            Step::Stat(path) if fuel > 0 => next.sweep_steps(
                at,
                files(path).answer(step),
                files,
                (fuel - 1) as nat,
            ),
            Step::Read(path, _) if fuel > 0 => next.sweep_steps(
                at,
                files(path).answer(step),
                files,
                (fuel - 1) as nat,
            ),
            _ => (next, step),
        }
    }
}

/// Every fetch and every registration is over after at most three steps, and
/// leaves a valid store valid.
pub proof fn law_operations_end(
    s: StoreView,
    name: Seq<char>,
    path: PathBuf,
    extension: Option<Seq<char>>,
    file: FileState,
)
    requires
        s.valid(),
    ensures
        s.fetch(name, file).step is Done,
        s.fetch(name, file).store.valid(),
        s.register(name, path, extension, file).step is Done,
        s.register(name, path, extension, file).store.valid(),
{
    if s.entries.contains_key(name) {
        let entry = s.entries[name];
        s.lemma_with_entry(name, entry);
        let s1 = s.fetched(name, FileEvent::Start).0;
        s1.lemma_with_entry(name, s1.entries[name]);
        let s2 = s1.fetched(name, FileEvent::Metadata(file.metadata)).0;
        if let Ok(modified) = file.metadata {
            if let Ok(data) = file.contents {
                s2.lemma_with_entry(
                    name,
                    s2.entries[name].refreshed(
                        FileEvent::Contents(recorded(modified), Ok(data)),
                    ),
                );
            } else {
                s2.lemma_with_entry(name, s2.entries[name]);
            }
        }
    }
    if let Ok(modified) = file.metadata {
        if let Ok(data) = file.contents {
            s.lemma_put(
                name,
                ResourceView {
                    path,
                    content_type: content_type_of(extension),
                    bytes: data@,
                    etag: etag_of(data@),
                    mtime: recorded(modified),
                },
            );
        }
    }
}

/// A file that can be read is registered with its bytes as they are on disk
/// and with the entity tag of those bytes.  A fetch that follows while the
/// file is as it was hands out those bytes and that tag, and reads the file
/// again only where its metadata cannot tell its modification time.
pub proof fn law_register_then_fetch(
    s: StoreView,
    name: Seq<char>,
    path: PathBuf,
    extension: Option<Seq<char>>,
    modified: Result<Timestamp, std::io::Error>,
    data: Vec<u8>,
)
    ensures
        ({
            let file = FileState { metadata: Ok(modified), contents: Ok(data) };
            let registration = s.register(name, path, extension, file);
            let entry = ResourceView {
                path,
                content_type: content_type_of(extension),
                bytes: data@,
                etag: etag_of(data@),
                mtime: recorded(modified),
            };
            &&& registration.step == Step::<()>::Done(Ok(()))
            &&& registration.store.entries.contains_key(name)
            &&& registration.store.entries[name] == entry
            &&& registration.store.fetch(name, file).step == Step::<Served>::Done(
                Ok((content_type_of(extension), data@, etag_of(data@))),
            )
            &&& registration.store.fetch(name, file).store == registration.store
            &&& registration.store.fetch(name, file).read == (modified is Err)
        }),
{
}

/// While the file's modification time is known and the file is not modified,
/// fetches are stable: whatever the first fetch handed out, the next one
/// hands out the same bytes and tag, reads nothing and leaves the store as
/// it is.
pub proof fn law_fetches_are_stable(s: StoreView, name: Seq<char>, file: FileState)
    requires
        file.metadata matches Ok(Ok(_)),
        s.fetch(name, file).step matches Step::Done(Ok(_)),
    ensures
        ({
            let first = s.fetch(name, file);
            let second = first.store.fetch(name, file);
            &&& second.step == first.step
            &&& second.store == first.store
            &&& !second.read
        }),
{
}

/// Fetching any number of times in a row, under the conditions of
/// [`law_fetches_are_stable`], changes neither the store nor what is handed
/// out.
pub open spec fn fetched_again(s: StoreView, name: Seq<char>, file: FileState, times: nat)
    -> Outcome<Served>
    decreases times,
{
    if times == 0 {
        s.fetch(name, file)
    } else {
        fetched_again(s, name, file, (times - 1) as nat).store.fetch(name, file)
    }
}

/// For every number of fetches with no modification of the file in between,
/// the bytes and the tag handed out are those of the first fetch, and no
/// fetch after the first reads the file.
pub proof fn law_fetch_sequences_are_stable(
    s: StoreView,
    name: Seq<char>,
    file: FileState,
    times: nat,
)
    requires
        file.metadata matches Ok(Ok(_)),
        s.fetch(name, file).step matches Step::Done(Ok(_)),
        times > 0,
    ensures
        fetched_again(s, name, file, times).step == s.fetch(name, file).step,
        fetched_again(s, name, file, times).store == s.fetch(name, file).store,
        !fetched_again(s, name, file, times).read,
    decreases times,
{
    if times > 1 {
        law_fetch_sequences_are_stable(s, name, file, (times - 1) as nat);
    }
    assert(fetched_again(s, name, file, (times - 1) as nat).store == s.fetch(name, file).store);
    law_fetches_are_stable(s, name, file);
}

/// Once the file's modification time lies strictly after the one on record,
/// the next fetch reads the file and hands out its new bytes with their
/// entity tag; the new time goes on record.  Where the new bytes differ from
/// the cached ones in exactly one byte, the tag differs from the one handed
/// out before.
pub proof fn law_modified_file_is_reloaded(
    s: StoreView,
    name: Seq<char>,
    known: Timestamp,
    seen: Timestamp,
    data: Vec<u8>,
)
    requires
        s.entries.contains_key(name),
        s.entries[name].consistent(),
        s.entries[name].mtime == Some(known),
        seen.is_after(known),
    ensures
        ({
            let file = FileState { metadata: Ok(Ok(seen)), contents: Ok(data) };
            let fetch = s.fetch(name, file);
            &&& fetch.read
            &&& fetch.step == Step::<Served>::Done(
                Ok((s.entries[name].content_type, data@, etag_of(data@))),
            )
            &&& fetch.store == s.with_entry(name, s.entries[name].reloaded(Some(seen), data@))
            &&& differ_in_one_byte(data@, s.entries[name].bytes) ==> etag_of(data@)
                != s.entries[name].etag
        }),
{
    if differ_in_one_byte(data@, s.entries[name].bytes) {
        law_one_changed_byte_changes_the_tag(data@, s.entries[name].bytes);
    }
}

/// While the file's modification time is not after the one on record, a
/// fetch hands out the cached bytes, whatever the file holds by now: it does
/// not read the file and leaves the store as it is.
pub proof fn law_unmodified_time_serves_cache(
    s: StoreView,
    name: Seq<char>,
    known: Timestamp,
    seen: Timestamp,
    contents: Result<Vec<u8>, std::io::Error>,
)
    requires
        s.entries.contains_key(name),
        s.entries[name].mtime == Some(known),
        !seen.is_after(known),
    ensures
        ({
            let file = FileState { metadata: Ok(Ok(seen)), contents };
            let fetch = s.fetch(name, file);
            &&& !fetch.read
            &&& fetch.step == Step::<Served>::Done(Ok(s.entries[name].served()))
            &&& fetch.store == s
        }),
{
}

/// An entry whose modification time is unknown, or whose file's metadata
/// cannot tell its modification time, is read again on every fetch.
pub proof fn law_unknown_time_reloads(s: StoreView, name: Seq<char>, file: FileState)
    requires
        s.entries.contains_key(name),
        file.metadata matches Ok(modified) && (s.entries[name].mtime is None || modified is Err),
    ensures
        s.fetch(name, file).read,
        file.contents matches Ok(data) ==> s.fetch(name, file).step == Step::<Served>::Done(
            Ok((s.entries[name].content_type, data@, etag_of(data@))),
        ) && s.fetch(name, file).store.entries[name].mtime == recorded(file.metadata->Ok_0),
{
}

/// A fetch of a name that is not registered fails with `NotFound`, asks for
/// nothing and leaves the store as it is.
pub proof fn law_unregistered_name_is_not_found(s: StoreView, name: Seq<char>, file: FileState)
    requires
        !s.entries.contains_key(name),
    ensures
        s.fetch(name, file) == (Outcome::<Served> {
            store: s,
            step: Step::Done(Err(ResourceError::NotFound)),
            read: false,
        }),
        forall|event: FileEvent| #[trigger]
            s.fetched(name, event) == (s, Step::<Served>::Done(Err(ResourceError::NotFound))),
{
}

/// A fetch whose access to the file fails, be it the metadata query or the
/// read, fails with the error of that access and leaves the store as it is.
pub proof fn law_failed_access_changes_nothing(s: StoreView, name: Seq<char>, file: FileState)
    requires
        s.entries.contains_key(name),
    ensures
        file.metadata matches Err(error) ==> s.fetch(name, file) == (Outcome::<Served> {
            store: s,
            step: Step::Done(Err(ResourceError::Io(error))),
            read: false,
        }),
        (file.metadata matches Ok(modified) && stale(s.entries[name].mtime, recorded(modified))
            && file.contents is Err) ==> s.fetch(name, file) == (Outcome::<Served> {
            store: s,
            step: Step::Done(Err(ResourceError::Io(file.contents->Err_0))),
            read: true,
        }),
{
    assert(s.with_entry(name, s.entries[name]) =~= s);
}

/// A registration whose access to the file fails registers nothing.
pub proof fn law_failed_registration_changes_nothing(
    s: StoreView,
    name: Seq<char>,
    path: PathBuf,
    extension: Option<Seq<char>>,
    file: FileState,
)
    requires
        file.metadata is Err || file.contents is Err,
    ensures
        s.register(name, path, extension, file).store == s,
        s.register(name, path, extension, file).step == Step::<()>::Done(
            Err(
                ResourceError::Io(
                    if file.metadata is Err {
                        file.metadata->Err_0
                    } else {
                        file.contents->Err_0
                    },
                ),
            ),
        ),
{
}

/// Unregistering a registered name hands back the path it was registered
/// with, and every later fetch of the name fails with `NotFound`.
/// Unregistering a name that is not registered hands back no path and leaves
/// the store as it is.
pub proof fn law_unregister(s: StoreView, name: Seq<char>, event: FileEvent)
    ensures
        ({
            let (after, path) = s.unregistered(name);
            &&& s.entries.contains_key(name) ==> path == Some(s.entries[name].path)
            &&& !s.entries.contains_key(name) ==> path is None && after == s
            &&& after.fetched(name, event) == (
                after,
                Step::<Served>::Done(Err(ResourceError::NotFound)),
            )
            &&& forall|other: Seq<char>|
                other != name ==> (after.entries.contains_key(other) <==> s.entries.contains_key(
                    other,
                )) && (s.entries.contains_key(other) ==> after.entries[other] == s.entries[other])
        }),
{
}

/// A fetch registers and unregisters nothing and changes no entry but the
/// one fetched; of that entry it leaves the path and the content type as
/// they were registered.
pub proof fn law_fetch_keeps_registrations(
    s: StoreView,
    name: Seq<char>,
    file: FileState,
    other: Seq<char>,
)
    ensures
        ({
            let after = s.fetch(name, file).store;
            &&& after.order == s.order
            &&& after.entries.contains_key(other) == s.entries.contains_key(other)
            &&& other != name ==> after.entries[other] == s.entries[other]
            &&& after.entries[other].path == s.entries[other].path
            &&& after.entries[other].content_type == s.entries[other].content_type
        }),
{
}

/// A registration changes no entry but the one of the name registered, and
/// registers or unregisters no other name.
pub proof fn law_registration_is_local(
    s: StoreView,
    name: Seq<char>,
    path: PathBuf,
    extension: Option<Seq<char>>,
    file: FileState,
    other: Seq<char>,
)
    requires
        other != name,
    ensures
        ({
            let after = s.register(name, path, extension, file).store;
            &&& after.entries.contains_key(other) == s.entries.contains_key(other)
            &&& after.entries[other] == s.entries[other]
        }),
{
}

/// From the answer to the metadata query for the entry at `cursor` on, the
/// steps of a sweep come to what the whole sweep comes to.
proof fn lemma_sweep_from_metadata(
    s: StoreView,
    cursor: int,
    files: spec_fn(PathBuf) -> FileState,
    fuel: nat,
)
    requires
        s.valid(),
        0 <= cursor < s.order.len(),
        fuel >= 2 * (s.order.len() - cursor),
    ensures
        s.sweep_steps(
            cursor,
            FileEvent::Metadata(files(s.entries[s.order[cursor]].path).metadata),
            files,
            fuel,
        ) == (s.sweep(cursor, files).0, Step::<()>::Done(s.sweep(cursor, files).1)),
    decreases s.order.len() - cursor, 1nat,
{
    let name = s.order[cursor];
    assert(s.order.contains(name));
    let entry = s.entries[name];
    let file = files(entry.path);
    let probed = FileEvent::Metadata(file.metadata);
    let (s1, at1, step1) = s.swept(cursor, probed);
    assert(s.with_entry(name, entry) =~= s);
    assert(s1 == s);
    let checked = s.fetch(name, file);
    if let Ok(modified) = file.metadata {
        let seen = recorded(modified);
        let fresh = entry.refreshed(FileEvent::Contents(seen, file.contents));
        let settled = s.with_entry(name, fresh);
        s.lemma_with_entry(name, fresh);
        assert(settled.with_entry(name, fresh) =~= settled);
        if stale(entry.mtime, seen) {
            let loaded = FileEvent::Contents(seen, file.contents);
            assert(step1 == Step::<()>::Read(entry.path, seen) && at1 == cursor);
            assert(file.answer(step1) == loaded);
            assert(s.sweep_steps(cursor, probed, files, fuel) == s.sweep_steps(
                cursor,
                loaded,
                files,
                (fuel - 1) as nat,
            ));
            if file.contents is Ok {
                assert(checked.store == settled);
                lemma_sweep_onward(s, settled, cursor, loaded, files, (fuel - 1) as nat);
            }
        } else {
            assert(checked.store == s);
            assert(settled == s);
            lemma_sweep_onward(s, s, cursor, probed, files, fuel);
        }
    }
}

/// Once the check of the entry at `cursor` settles on `event`, leaving the
/// store `settled`, the steps of the sweep go on as the whole sweep does
/// from the next entry.
proof fn lemma_sweep_onward(
    s: StoreView,
    settled: StoreView,
    cursor: int,
    event: FileEvent,
    files: spec_fn(PathBuf) -> FileState,
    fuel: nat,
)
    requires
        s.valid(),
        0 <= cursor < s.order.len(),
        fuel + 1 >= 2 * (s.order.len() - cursor),
        s.entries[s.order[cursor]].verdict(event) is Settled,
        settled == s.with_entry(
            s.order[cursor],
            s.entries[s.order[cursor]].refreshed(event),
        ),
        settled.valid(),
    ensures
        s.sweep_steps(cursor, event, files, fuel) == (
            settled.sweep(cursor + 1, files).0,
            Step::<()>::Done(settled.sweep(cursor + 1, files).1),
        ),
    decreases s.order.len() - cursor, 0nat,
{
    let (s1, at1, step1) = s.swept(cursor, event);
    assert(s1 == settled && at1 == cursor + 1);
    if cursor + 1 < s.order.len() {
        let name = s.order[cursor];
        let following = s.order[cursor + 1];
        assert(s.order.contains(following));
        assert(settled.entries[following] == s.entries[following]);
        let path = s.entries[following].path;
        assert(step1 == Step::<()>::Stat(path));
        assert(s.sweep_steps(cursor, event, files, fuel) == settled.sweep_steps(
            cursor + 1,
            FileEvent::Metadata(files(path).metadata),
            files,
            (fuel - 1) as nat,
        ));
        lemma_sweep_from_metadata(settled, cursor + 1, files, (fuel - 1) as nat);
    }
}

/// The steps of a sweep, begun at the first entry and given requests enough,
/// come to what the whole sweep comes to: every entry up to the first failed
/// access is left as a fetch of it leaves it, the entries after it are left
/// alone, and the sweep's result is that access's error, or success where no
/// access failed.
pub proof fn law_sweep_fetches_each_entry(
    s: StoreView,
    files: spec_fn(PathBuf) -> FileState,
    fuel: nat,
)
    requires
        s.valid(),
        fuel > 2 * s.order.len(),
    ensures
        s.sweep_steps(0, FileEvent::Start, files, fuel) == (
            s.sweep(0, files).0,
            Step::<()>::Done(s.sweep(0, files).1),
        ),
{
    if s.order.len() > 0 {
        let name = s.order[0];
        assert(s.order.contains(name));
        assert(s.with_entry(name, s.entries[name]) =~= s);
        lemma_sweep_from_metadata(s, 0, files, (fuel - 1) as nat);
    }
}

/// A step of a sweep that ends the sweep with an error leaves the store as
/// it is, and no step changes an entry other than the one at the cursor.
pub proof fn law_sweep_step_is_local(s: StoreView, cursor: int, event: FileEvent)
    requires
        s.valid(),
    ensures
        s.swept(cursor, event).2 matches Step::Done(Err(_)) ==> s.swept(cursor, event).0 == s,
        s.swept(cursor, event).0.order == s.order,
        forall|name: Seq<char>|
            s.entries.contains_key(name) && !(0 <= cursor < s.order.len() && name
                == s.order[cursor]) ==> #[trigger] s.swept(cursor, event).0.entries[name]
                == s.entries[name],
        s.swept(cursor, event).0.valid(),
{
    if 0 <= cursor < s.order.len() {
        let name = s.order[cursor];
        assert(s.order.contains(name));
        assert(s.with_entry(name, s.entries[name]) =~= s);
        s.lemma_with_entry(name, s.entries[name].refreshed(event));
    }
}

} // verus!
