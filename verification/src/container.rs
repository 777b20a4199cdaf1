//! The zip container as the `zip` crate writes and reads it, held in memory.
//!
//! Nothing in this file is proved. Each item states what the crate's source
//! shows of one of its functions; the rest of the library is verified against
//! these statements.

use std::io::Cursor;
use std::io::Read;
use std::io::Write;
use vstd::prelude::*;
use zip::result::ZipError;
use zip::write::FileOptions;
use zip::CompressionMethod;
use zip::DateTime;
use zip::ZipArchive;
use zip::ZipWriter;

verus! {

/// `std::io::Cursor`, carried through as the in-memory reader of an archive.
#[verifier::external_type_specification]
#[verifier::external_body]
#[verifier::reject_recursive_types(T)]
pub struct ExCursor<T>(Cursor<T>);

/// `zip::ZipArchive`, an opened container.
#[verifier::external_type_specification]
#[verifier::external_body]
#[verifier::reject_recursive_types(R)]
pub struct ExZipArchive<R>(ZipArchive<R>);

/// `zip::result::ZipError`, carried through and mapped to this library's own
/// failures by the callers.
#[verifier::external_type_specification]
#[verifier::external_body]
pub struct ExZipError(ZipError);

/// A `zip::ZipWriter` over an in-memory cursor. Verus cannot take the
/// writer's own declaration, whose parameter is bounded by `std::io` traits,
/// so the writer is held here, out of the verifier's sight.
#[verifier::external_body]
pub struct ContainerWriter {
    inner: ZipWriter<Cursor<Vec<u8>>>,
}

/// The entries handed to a writer so far, oldest first: each with its name,
/// its unix mode, the number of its compression method and the bytes written
/// into it.
pub uninterp spec fn written(w: ContainerWriter) -> Seq<(Seq<char>, u32, u16, Seq<u8>)>;

/// Whether a writer is open and has taken every entry so far within the
/// limit of `MAX_ENTRY_BYTES`.
pub uninterp spec fn accepting(w: ContainerWriter) -> bool;

/// Whether a writer has a file started into which bytes can go.
pub uninterp spec fn writing(w: ContainerWriter) -> bool;

/// The bytes `zip::ZipWriter::finish` hands out for a writer that was given
/// these entries with the default timestamp.
pub uninterp spec fn finished_container(entries: Seq<(Seq<char>, u32, u16, Seq<u8>)>) -> Seq<u8>;

/// What `zip::ZipArchive::new` makes of the given bytes: `None` where it
/// refuses them, else what the opened archive holds.
pub uninterp spec fn parsed_container(bytes: Seq<u8>) -> Option<
    Seq<(Option<Seq<char>>, Option<Seq<u8>>)>,
>;

/// What an opened archive holds, in container order: for each entry its name,
/// where the entry can be opened, and its bytes, where they can be read back
/// whole.
pub uninterp spec fn archive_entries(a: ZipArchive<Cursor<Vec<u8>>>) -> Seq<
    (Option<Seq<char>>, Option<Seq<u8>>),
>;

/// The number of the method that stores bytes as they are.
pub const STORED: u16 = 0;

/// The most bytes an entry can take: the writer refuses more, since it is not
/// told to write the large-file form.
pub const MAX_ENTRY_BYTES: usize = 0xFFFF_FFFF;

/// The name the writer gives a directory entry: the given name, followed by
/// `/` unless it already ends in `/` or `\`.
pub open spec fn written_directory_name(name: Seq<char>) -> Seq<char> {
    if name.len() > 0 && (name.last() == '/' || name.last() == '\\') {
        name
    } else {
        name.push('/')
    }
}

/// The unix mode the writer records for a file given these permissions.
pub open spec fn file_mode(permissions: u32) -> u32 {
    (permissions & 0o777) | 0o100000
}

/// The unix mode the writer records for a directory given these permissions.
pub open spec fn directory_mode(permissions: u32) -> u32 {
    (permissions & 0o777) | 0o40000
}

/// The entries after `data` went into the entry that is being written.
pub open spec fn with_appended(
    entries: Seq<(Seq<char>, u32, u16, Seq<u8>)>,
    data: Seq<u8>,
) -> Seq<(Seq<char>, u32, u16, Seq<u8>)> {
    if entries.len() == 0 {
        entries
    } else {
        entries.update(
            entries.len() - 1,
            (entries.last().0, entries.last().1, entries.last().2, entries.last().3 + data),
        )
    }
}

/// `zip::ZipWriter::new` over an empty cursor: a writer that was given no
/// entry yet.
#[verifier::external_body]
pub(crate) fn writer_new() -> (w: ContainerWriter)
    ensures
        written(w) == Seq::<(Seq<char>, u32, u16, Seq<u8>)>::empty(),
        accepting(w),
{
    ContainerWriter { inner: ZipWriter::new(Cursor::new(Vec::new())) }
}

/// `zip::ZipWriter::start_file` with options set to the method of the given
/// number, the default timestamp and the given permissions. Only the stored
/// method is admitted: with another one the writer can be left in a state in
/// which its later calls panic. Where the call succeeds the writer has one
/// more entry: an empty file of that name and method, whose mode is the
/// permission bits marked as a regular file. An accepting writer takes the
/// file and stays accepting. Nothing is claimed of the writer after a
/// failure.
#[verifier::external_body]
#[allow(deprecated)]
pub(crate) fn writer_start_file(
    w: &mut ContainerWriter,
    name: &str,
    permissions: u32,
    method: u16,
) -> (r: Result<(), ZipError>)
    requires
        method == STORED,
    ensures
        r is Ok ==> written(*final(w)) == written(*old(w)).push(
            (name@, file_mode(permissions), method, Seq::<u8>::empty()),
        ),
        accepting(*old(w)) ==> r is Ok && accepting(*final(w)) && writing(*final(w)),
{
    let options = FileOptions::default()
        .compression_method(CompressionMethod::from_u16(method))
        .last_modified_time(DateTime::default())
        .unix_permissions(permissions);
    w.inner.start_file(name, options)
}

/// `zip::ZipWriter::add_directory` with the default timestamp and the given
/// permissions. Where it succeeds the writer has one more entry without
/// bytes: the name is the given one, followed by `/` unless it already ends
/// in `/` or `\`, the mode is the permission bits marked as a directory, and
/// the method is the stored one, whatever the options say. An accepting
/// writer takes a directory and stays accepting.
#[verifier::external_body]
pub(crate) fn writer_add_directory(w: &mut ContainerWriter, name: &str, permissions: u32) -> (r:
    Result<(), ZipError>)
    ensures
        r is Ok ==> written(*final(w)) == written(*old(w)).push(
            (written_directory_name(name@), directory_mode(permissions), STORED, Seq::<u8>::empty()),
        ),
        accepting(*old(w)) ==> r is Ok && accepting(*final(w)),
{
    let options = FileOptions::default()
        .last_modified_time(DateTime::default())
        .unix_permissions(permissions);
    w.inner.add_directory(name, options)
}

/// `std::io::Write::write_all` on the writer. Where it succeeds the bytes went
/// to the end of the newest entry; the writer refuses bytes while no file is
/// being written. An accepting writer with a file started takes the bytes as
/// long as the entry stays within `MAX_ENTRY_BYTES`.
#[verifier::external_body]
pub(crate) fn writer_write(w: &mut ContainerWriter, data: &[u8]) -> (r: Result<(), ZipError>)
    ensures
        r is Ok ==> written(*final(w)) == with_appended(written(*old(w)), data@),
        accepting(*old(w)) && writing(*old(w)) && written(*old(w)).len() > 0 && written(
            *old(w),
        ).last().3.len() + data@.len() <= MAX_ENTRY_BYTES ==> r is Ok && accepting(*final(w))
            && writing(*final(w)),
{
    match w.inner.write_all(data) {
        Ok(()) => Ok(()),
        Err(e) => Err(ZipError::Io(e)),
    }
}

/// `zip::ZipWriter::finish`, then `Cursor::into_inner`: the finished
/// container's bytes, which depend on nothing but the entries the writer was
/// given. An accepting writer finishes.
#[verifier::external_body]
pub(crate) fn writer_finish(w: &mut ContainerWriter) -> (r: Result<Vec<u8>, ZipError>)
    ensures
        r matches Ok(bytes) ==> bytes@ == finished_container(written(*old(w))),
        accepting(*old(w)) ==> r is Ok,
{
    match w.inner.finish() {
        Ok(cursor) => Ok(cursor.into_inner()),
        Err(e) => Err(e),
    }
}

/// `zip::ZipArchive::new` over a cursor on the given bytes. Whether it opens
/// them, and what the opened archive then holds, depends on the bytes alone.
#[verifier::external_body]
pub(crate) fn archive_open(bytes: Vec<u8>) -> (r: Result<ZipArchive<Cursor<Vec<u8>>>, ZipError>)
    ensures
        r is Ok <==> parsed_container(bytes@) is Some,
        r matches Ok(a) ==> parsed_container(bytes@) == Some(archive_entries(a)),
{
    ZipArchive::new(Cursor::new(bytes))
}

/// `zip::ZipArchive::len`: the number of entries.
#[verifier::external_body]
pub(crate) fn archive_len(a: &ZipArchive<Cursor<Vec<u8>>>) -> (n: usize)
    ensures
        n == archive_entries(*a).len(),
{
    a.len()
}

/// `zip::ZipArchive::by_index_decrypt` with an empty password, then
/// `ZipFile::name`. It is called in place of `by_index`, which unwraps a
/// refused password and so can panic on a malformed entry; for an entry that
/// is not encrypted the two open it alike. Opening leaves what the archive
/// holds as it was.
#[verifier::external_body]
pub(crate) fn archive_entry_name(a: &mut ZipArchive<Cursor<Vec<u8>>>, index: usize) -> (r: Result<
    String,
    ZipError,
>)
    ensures
        archive_entries(*final(a)) == archive_entries(*old(a)),
        index >= archive_entries(*old(a)).len() ==> r is Err,
        index < archive_entries(*old(a)).len() ==> (r is Ok <==> archive_entries(
            *old(a),
        )[index as int].0 is Some),
        index < archive_entries(*old(a)).len() ==> (r matches Ok(name) ==> archive_entries(
            *old(a),
        )[index as int].0 == Some(name@)),
{
    match a.by_index_decrypt(index, &[]) {
        Ok(Ok(file)) => Ok(file.name().to_string()),
        Ok(Err(_)) => Err(ZipError::UnsupportedArchive(ZipError::PASSWORD_REQUIRED)),
        Err(e) => Err(e),
    }
}

/// `zip::ZipArchive::by_index_decrypt` with an empty password, then
/// `std::io::Read::read_to_end` on the entry: its bytes, decompressed and
/// checked against the recorded checksum.
#[verifier::external_body]
pub(crate) fn archive_entry_data(a: &mut ZipArchive<Cursor<Vec<u8>>>, index: usize) -> (r: Result<
    Vec<u8>,
    ZipError,
>)
    ensures
        archive_entries(*final(a)) == archive_entries(*old(a)),
        index >= archive_entries(*old(a)).len() ==> r is Err,
        index < archive_entries(*old(a)).len() ==> (r is Ok <==> archive_entries(
            *old(a),
        )[index as int].1 is Some),
        index < archive_entries(*old(a)).len() ==> (r matches Ok(data) ==> archive_entries(
            *old(a),
        )[index as int].1 == Some(data@)),
{
    let mut data = Vec::new();
    match a.by_index_decrypt(index, &[]) {
        Ok(Ok(mut file)) => match file.read_to_end(&mut data) {
            Ok(_) => Ok(data),
            Err(e) => Err(ZipError::Io(e)),
        },
        Ok(Err(_)) => Err(ZipError::UnsupportedArchive(ZipError::PASSWORD_REQUIRED)),
        Err(e) => Err(e),
    }
}

} // verus!
