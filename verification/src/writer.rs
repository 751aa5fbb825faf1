//! The archive writer: one container, filled entry by entry under one fixed
//! set of attributes, and closed once.

use crate::sink::archived_entries;
use crate::sink::entry_in_progress;
use crate::sink::finished;
use crate::sink::io_error_text;
use crate::sink::start_accepted;
use crate::sink::with_appended;
use crate::sink::write_accepted;
use crate::sink::zip_abort_file;
use crate::sink::zip_error_text;
use crate::sink::zip_finish;
use crate::sink::zip_is_writing_file;
use crate::sink::zip_new;
use crate::sink::zip_start_file;
use crate::sink::zip_write_all;
use crate::sink::Compression;
use crate::sink::Entry;
use crate::sink::ZipSink;
use crate::sink::MAX_NAME_BYTES;
use vstd::prelude::*;
use vstd::string::StringSliceAdditionalSpecFns;
use vstd::utf8::encode_utf8;

verus! {

/// Permission bits of every entry: owner may read, write and execute, group
/// and others may read and execute.
pub const ENTRY_PERMISSIONS: u32 = 0o755;

/// Why the writer refused a request.
#[derive(Debug)]
pub enum ArchiveError {
    /// The entry name is longer than the container format can record.
    NameTooLong,
    /// Bytes were offered while no entry was open.
    NoOpenEntry,
    /// The container refused the request; the text says why.
    Rejected(String),
    /// Writing the payload failed; the text says why.
    Write(String),
}

impl ArchiveError {
    /// The text of this error for a person to read.
    pub open spec fn text(self) -> Seq<char> {
        match self {
            ArchiveError::NameTooLong => "entry name is too long"@,
            ArchiveError::NoOpenEntry => "no entry is open"@,
            ArchiveError::Rejected(why) => why@,
            ArchiveError::Write(why) => why@,
        }
    }

    /// Says in words what went wrong.
    pub fn describe(&self) -> (text: String)
        ensures
            text@ == self.text(),
    {
        match self {
            ArchiveError::NameTooLong => "entry name is too long".to_owned(),
            ArchiveError::NoOpenEntry => "no entry is open".to_owned(),
            ArchiveError::Rejected(why) => why.clone(),
            ArchiveError::Write(why) => why.clone(),
        }
    }
}

/// An entry as this writer makes them: `data` under `name`, deflated, with
/// the fixed permission bits.
pub open spec fn uniform_entry(name: Seq<char>, data: Seq<u8>) -> Entry {
    Entry {
        name,
        permissions: ENTRY_PERMISSIONS as nat,
        compression: Compression::Deflated,
        data,
    }
}

/// Whether `name` is short enough for the container format to record.
pub open spec fn fits(name: Seq<char>) -> bool {
    encode_utf8(name).len() <= MAX_NAME_BYTES
}

/// Whether `container`, as it stands, opens an entry of this writer's kind
/// under `name`: the name fits and the container accepts it. A container
/// never accepts a name that one of its entries bears.
pub open spec fn opens(container: ZipSink, name: Seq<char>) -> bool {
    fits(name) && start_accepted(
        container,
        name,
        Compression::Deflated,
        ENTRY_PERMISSIONS as nat,
    )
}

/// Whether `container`, as it stands with an entry open, takes `bytes` into
/// that entry. It always takes no bytes at all.
pub open spec fn fills(container: ZipSink, bytes: Seq<u8>) -> bool {
    write_accepted(container, bytes)
}

/// Whether `container`, as it stands, can be closed.
pub open spec fn closes(container: ZipSink) -> bool {
    finished(container) is Some
}

/// The bytes that closing `container`, as it stands, gives.
pub open spec fn sealed(container: ZipSink) -> Seq<u8>
    recommends
        closes(container),
{
    finished(container)->0
}

/// Whether every entry bears the fixed attributes and no two share a name.
pub open spec fn well_formed(entries: Seq<Entry>) -> bool {
    &&& forall|i: int|
        0 <= i < entries.len() ==> #[trigger] entries[i] == uniform_entry(
            entries[i].name,
            entries[i].data,
        )
    &&& forall|i: int, j: int|
        0 <= i < j < entries.len() ==> (#[trigger] entries[i]).name != (#[trigger] entries[j]).name
}

/// A finished container: the bytes that closing it gave and, beside them,
/// the list of entries that went into it. The list is kept for the proofs;
/// that the bytes read back as that list is the container format's matter
/// and is not proved here.
pub struct Archive {
    bytes: Vec<u8>,
    entries: Ghost<Seq<Entry>>,
}

impl Archive {
    /// The entries that were stored in the container, in their order.
    pub closed spec fn entries(&self) -> Seq<Entry> {
        self.entries@
    }

    /// The container's bytes, ready to be written out.
    pub closed spec fn bytes(&self) -> Seq<u8> {
        self.bytes@
    }

    /// Gives up the container's bytes.
    pub fn into_bytes(self) -> (bytes: Vec<u8>)
        ensures
            bytes@ == self.bytes(),
    {
        self.bytes
    }
}

/// A container under construction, together with the one buffer through which
/// file contents travel into it.
pub struct ArchiveWriter {
    sink: ZipSink,
    buffer: Vec<u8>,
    opened: Ghost<ZipSink>,
}

impl ArchiveWriter {
    /// The entries stored so far, oldest first.
    pub closed spec fn entries(&self) -> Seq<Entry> {
        archived_entries(self.sink)
    }

    /// What holds of every writer: its entries are uniform and bear distinct
    /// names.
    pub open spec fn wf(&self) -> bool {
        well_formed(self.entries())
    }

    /// Whether the newest entry still accepts bytes.
    pub closed spec fn entry_open(&self) -> bool {
        entry_in_progress(self.sink)
    }

    /// The container as it stands.
    pub closed spec fn container(&self) -> ZipSink {
        self.sink
    }

    /// The container as it stood when its newest entry had just been opened
    /// (as it was made, while it has opened none).
    pub closed spec fn opened(&self) -> ZipSink {
        self.opened@
    }

    /// The bytes in the transfer buffer while the writer keeps it: what was
    /// last brought back in it, and nothing while it is lent out.
    pub closed spec fn held(&self) -> Seq<u8> {
        self.buffer@
    }

    /// Starts an empty container.
    pub fn open() -> (writer: ArchiveWriter)
        ensures
            writer.wf(),
            writer.entries() == Seq::<Entry>::empty(),
            !writer.entry_open(),
            writer.held() == Seq::<u8>::empty(),
            writer.opened() == writer.container(),
    {
        let sink = zip_new();
        let ghost made = sink;
        ArchiveWriter { sink, buffer: Vec::new(), opened: Ghost(made) }
    }

    /// Declares the next entry and leaves it open and empty. The entry before
    /// it, if it was open, is thereby complete.
    ///
    /// The entry is opened exactly when the name fits and the container
    /// accepts it. A name that is too long is refused up front. The
    /// container refuses, among others, a name that an earlier entry bears.
    /// A refused request changes nothing in what the container lists.
    pub fn start_entry(&mut self, name: &str) -> (result: Result<(), ArchiveError>)
        requires
            old(self).wf(),
        ensures
            result is Ok <==> opens(old(self).container(), name@),
            result matches Err(ArchiveError::NameTooLong) <==> !fits(name@),
            result is Ok ==> {
                &&& final(self).entries() == old(self).entries().push(
                    uniform_entry(name@, Seq::empty()),
                )
                &&& final(self).entry_open()
                &&& final(self).opened() == final(self).container()
            },
            result matches Err(error) ==> {
                &&& final(self).entries() == old(self).entries()
                &&& final(self).opened() == old(self).opened()
                &&& error is NameTooLong || error is Rejected
            },
            final(self).held() == old(self).held(),
            final(self).wf(),
    {
        if name.as_bytes().len() > MAX_NAME_BYTES {
            return Err(ArchiveError::NameTooLong);
        }
        match zip_start_file(&mut self.sink, name, Compression::Deflated, ENTRY_PERMISSIONS) {
            Ok(()) => {
                self.opened = Ghost(self.sink);
                Ok(())
            },
            Err(error) => Err(ArchiveError::Rejected(zip_error_text(&error))),
        }
    }

    /// Appends `bytes` to the open entry.
    ///
    /// The bytes are appended exactly when an entry is open and the
    /// container takes them. Without an open entry nothing happens and
    /// `NoOpenEntry` comes back. Where the container does not take the
    /// bytes, the open entry is removed altogether, so that no cut-off entry
    /// stays behind.
    pub fn write_all(&mut self, bytes: &[u8]) -> (result: Result<(), ArchiveError>)
        requires
            old(self).wf(),
        ensures
            result is Ok <==> old(self).entry_open() && fills(old(self).container(), bytes@),
            result matches Err(ArchiveError::NoOpenEntry) <==> !old(self).entry_open(),
            old(self).entry_open() && bytes@.len() == 0 ==> result is Ok,
            result matches Err(ArchiveError::NoOpenEntry) ==> final(self).entries() == old(
                self,
            ).entries(),
            result is Ok ==> {
                &&& old(self).entries().len() > 0
                &&& final(self).entries() == with_appended(old(self).entries(), bytes@)
                &&& final(self).entry_open()
            },
            result matches Err(ArchiveError::Write(_)) ==> {
                &&& old(self).entries().len() > 0
                &&& final(self).entries() == old(self).entries().drop_last()
            },
            result matches Err(error) ==> error is NoOpenEntry || error is Write,
            final(self).opened() == old(self).opened(),
            final(self).held() == old(self).held(),
            final(self).wf(),
    {
        if !zip_is_writing_file(&self.sink) {
            return Err(ArchiveError::NoOpenEntry);
        }
        let ghost before = archived_entries(self.sink);
        match zip_write_all(&mut self.sink, bytes) {
            Ok(()) => Ok(()),
            Err(error) => {
                if zip_is_writing_file(&self.sink) {
                    let ghost partial = archived_entries(self.sink);
                    assert(partial.drop_last() == before.drop_last());
                    let _ = zip_abort_file(&mut self.sink);
                }
                Err(ArchiveError::Write(io_error_text(&error)))
            },
        }
    }

    /// Stores `bytes` as a complete entry under `name`, or leaves the
    /// container's list as it was.
    ///
    /// The entry is stored exactly when the container opens it and then,
    /// with it just opened, takes the bytes. Each way to fail has its own
    /// error: a name that does not fit, a container that does not open the
    /// entry, a container that does not take the bytes.
    pub fn store(&mut self, name: &str, bytes: &[u8]) -> (result: Result<(), ArchiveError>)
        requires
            old(self).wf(),
        ensures
            result is Ok <==> opens(old(self).container(), name@) && fills(
                final(self).opened(),
                bytes@,
            ),
            result matches Err(ArchiveError::NameTooLong) <==> !fits(name@),
            result matches Err(ArchiveError::Rejected(_)) <==> fits(name@) && !opens(
                old(self).container(),
                name@,
            ),
            opens(old(self).container(), name@) && bytes@.len() == 0 ==> result is Ok,
            result is Ok ==> {
                &&& final(self).entries() == old(self).entries().push(uniform_entry(name@, bytes@))
                &&& final(self).entry_open()
            },
            result matches Err(error) ==> {
                &&& final(self).entries() == old(self).entries()
                &&& error is NameTooLong || error is Rejected || error is Write
            },
            !opens(old(self).container(), name@) ==> final(self).opened() == old(self).opened(),
            final(self).held() == old(self).held(),
            final(self).wf(),
    {
        let ghost before = self.entries();
        match self.start_entry(name) {
            Ok(()) => {},
            Err(error) => {
                return Err(error);
            },
        }
        let ghost started = self.entries();
        assert(started.drop_last() == before);
        match self.write_all(bytes) {
            Ok(()) => {
                assert(Seq::<u8>::empty() + bytes@ == bytes@);
                assert(self.entries() == before.push(uniform_entry(name@, bytes@)));
                Ok(())
            },
            Err(error) => Err(error),
        }
    }

    /// Hands out the transfer buffer, emptied, for the next file to be read
    /// into. No byte of an earlier file is in it, and none stays behind in
    /// the writer.
    pub fn lend_buffer(&mut self) -> (buffer: Vec<u8>)
        requires
            old(self).wf(),
        ensures
            buffer@ == Seq::<u8>::empty(),
            final(self).held() == Seq::<u8>::empty(),
            final(self).container() == old(self).container(),
            final(self).opened() == old(self).opened(),
            final(self).wf(),
            final(self).entries() == old(self).entries(),
            final(self).entry_open() == old(self).entry_open(),
    {
        let mut buffer: Vec<u8> = Vec::new();
        std::mem::swap(&mut self.buffer, &mut buffer);
        buffer.clear();
        buffer
    }

    /// Takes the transfer buffer back unused, as after a read that failed.
    /// The writer keeps it, with whatever it holds, until it is lent again;
    /// the container is not touched.
    pub fn return_buffer(&mut self, buffer: Vec<u8>)
        requires
            old(self).wf(),
        ensures
            final(self).held() == buffer@,
            final(self).container() == old(self).container(),
            final(self).opened() == old(self).opened(),
            final(self).wf(),
            final(self).entries() == old(self).entries(),
            final(self).entry_open() == old(self).entry_open(),
    {
        self.buffer = buffer;
    }

    /// Stores the contents of `buffer` as a complete entry under `name`, or
    /// leaves the container's list as it was, and takes the buffer back for
    /// the next file. The entry is stored exactly when `store` would store
    /// it.
    pub fn store_buffer(&mut self, name: &str, buffer: Vec<u8>) -> (result: Result<
        (),
        ArchiveError,
    >)
        requires
            old(self).wf(),
        ensures
            result is Ok <==> opens(old(self).container(), name@) && fills(
                final(self).opened(),
                buffer@,
            ),
            result matches Err(ArchiveError::NameTooLong) <==> !fits(name@),
            result matches Err(ArchiveError::Rejected(_)) <==> fits(name@) && !opens(
                old(self).container(),
                name@,
            ),
            opens(old(self).container(), name@) && buffer@.len() == 0 ==> result is Ok,
            !opens(old(self).container(), name@) ==> final(self).opened() == old(self).opened(),
            result is Ok ==> {
                &&& final(self).entries() == old(self).entries().push(
                    uniform_entry(name@, buffer@),
                )
                &&& final(self).entry_open()
            },
            result matches Err(error) ==> {
                &&& final(self).entries() == old(self).entries()
                &&& error is NameTooLong || error is Rejected || error is Write
            },
            final(self).held() == buffer@,
            final(self).wf(),
    {
        let result = self.store(name, buffer.as_slice());
        self.buffer = buffer;
        result
    }

    /// Closes the container and gives out its bytes, together with the list
    /// of the entries stored, in their order. It succeeds exactly when the
    /// container can be closed; one that cannot is lost, and the text says
    /// why.
    pub fn finalize(self) -> (result: Result<Archive, ArchiveError>)
        requires
            self.wf(),
        ensures
            result is Ok <==> closes(self.container()),
            result matches Ok(archive) ==> archive.bytes() == sealed(self.container()),
            result matches Ok(archive) ==> {
                &&& archive.entries() == self.entries()
                &&& well_formed(archive.entries())
            },
            result matches Err(error) ==> error is Rejected,
    {
        let ghost entries = archived_entries(self.sink);
        match zip_finish(self.sink) {
            Ok(bytes) => Ok(Archive { bytes, entries: Ghost(entries) }),
            Err(error) => Err(ArchiveError::Rejected(zip_error_text(&error))),
        }
    }
}

} // verus!
