//! The boundary to the `zip` crate: an in-memory container writer, the model
//! of what it holds, and one thin function per call made into it.
//!
//! Nothing in this file is proved. Each function states what the `zip`
//! sources show of the call it makes, for a writer over a `Cursor<Vec<u8>>`,
//! whose reads, writes and seeks cannot fail.

use std::io::Cursor;
use std::io::Write;
use vstd::prelude::*;
use vstd::string::StringSliceAdditionalSpecFns;
use zip::result::ZipError;
use zip::write::SimpleFileOptions;
use zip::CompressionMethod;
use zip::ZipWriter;

verus! {

/// How an entry's payload is encoded inside the container.
#[derive(Clone, Copy, Debug, PartialEq, Eq, Structural)]
pub enum Compression {
    /// The bytes are kept as they are.
    Stored,
    /// The bytes pass through a deflate compressor.
    Deflated,
}

/// One stored item as a reader of the container sees it.
pub struct Entry {
    /// The name in the container's directory.
    pub name: Seq<char>,
    /// The Unix permission bits (the low nine bits of the mode).
    pub permissions: nat,
    /// The payload encoding.
    pub compression: Compression,
    /// The payload before compression.
    pub data: Seq<u8>,
}

/// Longest entry name, in bytes, that the container format can record.
pub const MAX_NAME_BYTES: usize = 65535;

/// A container under construction in memory: a `zip::ZipWriter` over a byte
/// buffer. Its inside is hidden from the verifier; `archived_entries` and
/// `entry_in_progress` stand for what it holds.
#[verifier::external_body]
pub struct ZipSink {
    inner: ZipWriter<Cursor<Vec<u8>>>,
}

#[verifier::external_type_specification]
#[verifier::external_body]
pub struct ExZipError(ZipError);

#[verifier::external_type_specification]
#[verifier::external_body]
pub struct ExIoError(std::io::Error);

/// The entries that the writer has recorded, oldest first. The payload of an
/// entry that is still being written is what has been accepted so far.
pub uninterp spec fn archived_entries(sink: ZipSink) -> Seq<Entry>;

/// Whether the newest entry is still open for more payload.
pub uninterp spec fn entry_in_progress(sink: ZipSink) -> bool;

/// Whether the writer, as it stands, opens an entry under `name` with this
/// method and these permission bits: what `ZipWriter::start_file` answers.
pub uninterp spec fn start_accepted(
    sink: ZipSink,
    name: Seq<char>,
    compression: Compression,
    permissions: nat,
) -> bool;

/// Whether the writer, as it stands with an entry open, takes `bytes` into
/// that entry: what `Write::write_all` answers.
pub uninterp spec fn write_accepted(sink: ZipSink, bytes: Seq<u8>) -> bool;

/// What closing the writer, as it stands, gives: the bytes of the finished
/// container, or nothing where `ZipWriter::finish` fails.
pub uninterp spec fn finished(sink: ZipSink) -> Option<Seq<u8>>;

/// `entries` with `bytes` appended to the payload of its newest entry.
pub open spec fn with_appended(entries: Seq<Entry>, bytes: Seq<u8>) -> Seq<Entry>
    recommends
        entries.len() > 0,
{
    entries.update(
        entries.len() - 1,
        (Entry { data: entries.last().data + bytes, ..entries.last() }),
    )
}

/// `ZipWriter::new` over an empty in-memory buffer: a writer that holds no
/// entry and has none open.
#[verifier::external_body]
pub(crate) fn zip_new() -> (sink: ZipSink)
    ensures
        archived_entries(sink) == Seq::<Entry>::empty(),
        !entry_in_progress(sink),
{
    ZipSink { inner: ZipWriter::new(Cursor::new(Vec::new())) }
}

/// `ZipWriter::start_file`, with options made by `SimpleFileOptions::default`,
/// `compression_method` and `unix_permissions`. On success the writer has
/// closed the entry before and holds a new, empty, open entry under exactly
/// `name`, which no older entry bears, with the method and the permission
/// bits asked for. On failure (a name already present, among others) it
/// lists what it listed. Whether it succeeds depends on the writer's state
/// and the arguments alone. The call panics on a name longer than
/// `MAX_NAME_BYTES`, and `unix_permissions` keeps the low nine bits only,
/// hence the preconditions.
#[verifier::external_body]
pub(crate) fn zip_start_file(
    sink: &mut ZipSink,
    name: &str,
    compression: Compression,
    permissions: u32,
) -> (result: Result<(), ZipError>)
    requires
        name.spec_bytes().len() <= MAX_NAME_BYTES,
        permissions <= 0o777,
    ensures
        result is Ok <==> start_accepted(*old(sink), name@, compression, permissions as nat),
        result is Ok ==> {
            &&& archived_entries(*final(sink)) == archived_entries(*old(sink)).push(
                (Entry {
                    name: name@,
                    permissions: permissions as nat,
                    compression,
                    data: Seq::empty(),
                }),
            )
            &&& entry_in_progress(*final(sink))
            &&& forall|i: int|
                0 <= i < archived_entries(*old(sink)).len() ==> (
                #[trigger] archived_entries(*old(sink))[i]).name != name@
        },
        result is Err ==> archived_entries(*final(sink)) == archived_entries(*old(sink)),
{
    let method = match compression {
        Compression::Stored => CompressionMethod::Stored,
        Compression::Deflated => CompressionMethod::Deflated,
    };
    let options = SimpleFileOptions::default().compression_method(method).unix_permissions(
        permissions,
    );
    sink.inner.start_file(name, options)
}

/// `ZipWriter::is_writing_file`: whether an entry is open. An open entry is
/// always the newest one, so the writer then holds at least one.
#[verifier::external_body]
pub(crate) fn zip_is_writing_file(sink: &ZipSink) -> (open: bool)
    ensures
        open == entry_in_progress(*sink),
        open ==> archived_entries(*sink).len() > 0,
{
    sink.inner.is_writing_file()
}

/// `Write::write_all` on the writer, with an entry open. Whether it succeeds
/// depends on the writer's state and the bytes alone, and with no bytes to
/// write it succeeds without a call into the writer. On success the open
/// entry has grown by exactly `bytes` and stays open. On failure the writer
/// has either dropped the open entry and closed it, or kept it open with an
/// undetermined payload under its name and attributes; older entries are
/// untouched either way.
#[verifier::external_body]
pub(crate) fn zip_write_all(sink: &mut ZipSink, bytes: &[u8]) -> (result:
    Result<(), std::io::Error>)
    requires
        entry_in_progress(*old(sink)),
        archived_entries(*old(sink)).len() > 0,
    ensures
        result is Ok <==> write_accepted(*old(sink), bytes@),
        bytes@.len() == 0 ==> result is Ok,
        result is Ok ==> {
            &&& archived_entries(*final(sink)) == with_appended(
                archived_entries(*old(sink)),
                bytes@,
            )
            &&& entry_in_progress(*final(sink))
        },
        result is Err && entry_in_progress(*final(sink)) ==> archived_entries(*final(sink))
            == archived_entries(*old(sink)).update(
            archived_entries(*old(sink)).len() - 1,
            (Entry {
                data: archived_entries(*final(sink)).last().data,
                ..archived_entries(*old(sink)).last()
            }),
        ),
        result is Err && !entry_in_progress(*final(sink)) ==> archived_entries(*final(sink))
            == archived_entries(*old(sink)).drop_last(),
{
    sink.inner.write_all(bytes)
}

/// `ZipWriter::abort_file`, with an entry open: the open entry is removed,
/// whatever the call reports; when it reports success no entry is open.
#[verifier::external_body]
pub(crate) fn zip_abort_file(sink: &mut ZipSink) -> (result: Result<
    (),
    ZipError,
>)
    requires
        entry_in_progress(*old(sink)),
        archived_entries(*old(sink)).len() > 0,
    ensures
        archived_entries(*final(sink)) == archived_entries(*old(sink)).drop_last(),
        result is Ok ==> !entry_in_progress(*final(sink)),
{
    sink.inner.abort_file()
}

/// `ZipWriter::finish`, then the bytes out of the cursor. Whether it
/// succeeds, and with which bytes, depends on the writer's state alone: with
/// the `time` feature of `zip` off, as this crate builds it, entries are
/// dated 1980-01-01 and no clock or random number goes into a container.
/// Nothing is stated of what the bytes are.
#[verifier::external_body]
pub(crate) fn zip_finish(sink: ZipSink) -> (result: Result<Vec<u8>, ZipError>)
    ensures
        match result {
            Ok(bytes) => finished(sink) == Some(bytes@),
            Err(_) => finished(sink) is None,
        },
{
    match sink.inner.finish() {
        Ok(cursor) => Ok(cursor.into_inner()),
        Err(error) => Err(error),
    }
}

/// The text that `ZipError` displays.
#[verifier::external_body]
pub(crate) fn zip_error_text(error: &ZipError) -> (text: String) {
    format!("{}", error)
}

/// The text that `std::io::Error` displays.
#[verifier::external_body]
pub(crate) fn io_error_text(error: &std::io::Error) -> (text: String) {
    format!("{}", error)
}

} // verus!
