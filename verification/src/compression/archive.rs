//! The archive reader this crate relies on, and what is taken on trust
//! about it.
//!
//! Archives are read from memory, so that what the reader returns depends on
//! the archive's bytes alone.

use vstd::prelude::*;
use vstd::string::*;
use vstd::utf8::encode_utf8;

use super::path::names;
use super::ExtractionError;

verus! {

/// `zip::ZipArchive`, carried through as an opaque value.
#[verifier::external_type_specification]
#[verifier::external_body]
#[verifier::reject_recursive_types(R)]
pub struct ExZipArchive<R>(zip::ZipArchive<R>);

/// `std::io::Cursor`, the in-memory reader an archive is opened on.
#[verifier::external_type_specification]
#[verifier::external_body]
#[verifier::reject_recursive_types(T)]
pub struct ExCursor<T>(std::io::Cursor<T>);

/// `zip::result::ZipError`, carried through as an opaque value.
#[verifier::external_type_specification]
#[verifier::external_body]
pub struct ExZipError(zip::result::ZipError);

/// Why an entry could not be opened without a password.
#[derive(Debug, Clone, Copy, PartialEq, Eq, Structural)]
pub enum OpenFailure {
    /// The entry is encrypted and no password was given.
    PasswordRequired,
    /// Any other failure: no such entry, unsupported method, damaged data.
    Unreadable,
}

/// The bytes an opened archive was read from.
pub uninterp spec fn archive_source(zip: zip::ZipArchive<std::io::Cursor<Vec<u8>>>) -> Seq<u8>;

/// Whether `zip::ZipArchive::new` accepts these bytes as an archive.
pub uninterp spec fn archive_parses(bytes: Seq<u8>) -> bool;

/// The number of entries `zip::ZipArchive::len` reports for an archive read
/// from these bytes.
pub uninterp spec fn archive_entry_count(source: Seq<u8>) -> nat;

/// What `zip::ZipArchive::by_index` gives for an entry: the decompressed
/// bytes its reader delivers, or why it could not be opened.
pub uninterp spec fn plain_open(source: Seq<u8>, index: nat) -> Result<Seq<u8>, OpenFailure>;

/// What `zip::ZipArchive::by_index_decrypt` gives for an entry and a
/// password: the decompressed bytes its reader delivers, or `None` where the
/// entry cannot be opened with that password.
pub uninterp spec fn decrypt_open(source: Seq<u8>, index: nat, password: Seq<u8>) -> Option<
    Seq<u8>,
>;

/// The path that `zip::read::ZipFile::enclosed_name` gives for an entry, as
/// the list of its components; `None` where it finds the stored name unsafe.
pub uninterp spec fn entry_declared_path(source: Seq<u8>, index: nat) -> Option<Seq<Seq<char>>>;

/// Whether `zip::read::ZipFile::is_dir` takes an entry for a directory.
pub uninterp spec fn entry_is_dir(source: Seq<u8>, index: nat) -> bool;

/// The uncompressed size that `zip::read::ZipFile::size` gives for an entry.
pub uninterp spec fn entry_size(source: Seq<u8>, index: nat) -> u64;

/// What `zip::ZipArchive::by_index_raw` finds of an entry: its compressed
/// size and, where it is encrypted with AES, the length of the salt; `None`
/// where the entry cannot be found.
pub uninterp spec fn raw_open(source: Seq<u8>, index: nat) -> Option<(u64, Option<usize>)>;

/// An open entry of an archive: `zip::read::ZipFile` over an in-memory
/// archive. It lends the archive for as long as it lives. The verifier
/// cannot take the reader's type as it is declared, so the reader is held
/// here as a value that nothing looks into.
#[verifier::external_body]
pub struct EntryReader<'a> {
    inner: zip::read::ZipFile<'a, std::io::Cursor<Vec<u8>>>,
}

/// The decompressed bytes that an open entry has yet to deliver.
pub uninterp spec fn reader_pending(reader: EntryReader<'_>) -> Seq<u8>;

/// What `zip::read::ZipFile::enclosed_name` gives for an open entry.
pub uninterp spec fn reader_declared_path(reader: EntryReader<'_>) -> Option<Seq<Seq<char>>>;

/// What `zip::read::ZipFile::is_dir` gives for an open entry.
pub uninterp spec fn reader_marks_dir(reader: EntryReader<'_>) -> bool;

/// What `zip::read::ZipFile::size` gives for an open entry.
pub uninterp spec fn reader_declared_size(reader: EntryReader<'_>) -> u64;

/// What the next `std::io::Read::read` on an open entry returns for a buffer
/// of `room` bytes: the number of bytes read, or `None` where it fails.
pub uninterp spec fn reader_read_outcome(reader: EntryReader<'_>, room: nat) -> Option<nat>;

/// An open entry says of itself what the archive says of the entry.
pub open spec fn describes(reader: EntryReader<'_>, source: Seq<u8>, index: nat) -> bool {
    &&& reader_declared_path(reader) == entry_declared_path(source, index)
    &&& reader_marks_dir(reader) == entry_is_dir(source, index)
    &&& reader_declared_size(reader) == entry_size(source, index)
}

/// The bytes that stand around the data of an entry encrypted with AES,
/// besides the salt: two to verify the password and ten to authenticate.
pub open spec fn aes_frame() -> nat {
    12
}

/// Whether an entry can be handed to the archive reader with a password: it
/// can be found, and if it is encrypted with AES its compressed size has
/// room for what AES puts around the data.
pub open spec fn has_room(source: Seq<u8>, index: nat) -> bool {
    match raw_open(source, index) {
        Some((packed, Some(salt))) => packed >= aes_frame() + salt,
        Some((_, None)) => true,
        None => false,
    }
}

/// Calls `zip::ZipArchive::new` on an in-memory cursor over `bytes`.
/// Claims: it succeeds exactly on the byte strings named by
/// `archive_parses`, and the archive it returns was read from `bytes`.
#[verifier::external_body]
pub(crate) fn zip_open(bytes: Vec<u8>) -> (r: Result<
    zip::ZipArchive<std::io::Cursor<Vec<u8>>>,
    zip::result::ZipError,
>)
    ensures
        r is Ok == archive_parses(bytes@),
        r matches Ok(zip) ==> archive_source(zip) == bytes@,
{
    zip::ZipArchive::new(std::io::Cursor::new(bytes))
}

/// Calls `zip::ZipArchive::len`. Claims: the count is a function of the
/// archive's bytes.
#[verifier::external_body]
pub(crate) fn zip_len(zip: &zip::ZipArchive<std::io::Cursor<Vec<u8>>>) -> (n: usize)
    ensures
        n == archive_entry_count(archive_source(*zip)),
{
    zip.len()
}

/// Calls `zip::ZipArchive::by_index_raw` and hands out the compressed size
/// and, for an entry encrypted with AES, the salt length of its mode.
/// Claims: the archive's bytes stay as they are, and what is found is a
/// function of those bytes and the index.
#[verifier::external_body]
pub(crate) fn zip_by_index_raw(
    zip: &mut zip::ZipArchive<std::io::Cursor<Vec<u8>>>,
    index: usize,
) -> (r: Option<(u64, Option<usize>)>)
    ensures
        archive_source(*final(zip)) == archive_source(*old(zip)),
        r == raw_open(archive_source(*old(zip)), index as nat),
{
    match zip.by_index_raw(index) {
        Ok(file) => Some(
            (
                file.compressed_size(),
                match zip::HasZipMetadata::get_metadata(&file).aes_mode {
                    Some((mode, _, _)) => Some(mode.salt_length()),
                    None => None,
                },
            ),
        ),
        Err(_) => None,
    }
}

/// Calls `zip::ZipArchive::by_index`. Claims: the archive's bytes stay as
/// they are; the outcome is a function of those bytes and the index; on
/// success the reader will deliver the bytes that `plain_open` names, and
/// says of the entry what the archive says of it. The error is reduced to
/// whether it is the reader's "password required" error.
#[verifier::external_body]
pub(crate) fn zip_by_index<'a>(
    zip: &'a mut zip::ZipArchive<std::io::Cursor<Vec<u8>>>,
    index: usize,
) -> (r: Result<EntryReader<'a>, OpenFailure>)
    ensures
        archive_source(*final(zip)) == archive_source(*old(zip)),
        match r {
            Ok(reader) => plain_open(archive_source(*old(zip)), index as nat) == Ok::<
                Seq<u8>,
                OpenFailure,
            >(reader_pending(reader)),
            Err(failure) => plain_open(archive_source(*old(zip)), index as nat) == Err::<
                Seq<u8>,
                OpenFailure,
            >(failure),
        },
        r matches Ok(reader) ==> {
            &&& reader_declared_path(reader) == entry_declared_path(
                archive_source(*old(zip)),
                index as nat,
            )
            &&& reader_marks_dir(reader) == entry_is_dir(archive_source(*old(zip)), index as nat)
            &&& reader_declared_size(reader) == entry_size(archive_source(*old(zip)), index as nat)
        },
{
    match zip.by_index(index) {
        Ok(inner) => Ok(EntryReader { inner }),
        Err(zip::result::ZipError::UnsupportedArchive(
            zip::result::ZipError::PASSWORD_REQUIRED,
        )) => Err(OpenFailure::PasswordRequired),
        Err(_) => Err(OpenFailure::Unreadable),
    }
}

/// Calls `zip::ZipArchive::by_index_decrypt`. An entry encrypted with AES
/// whose compressed size is below what AES puts around the data is left
/// out: the archive reader subtracts without looking. Claims: the archive's
/// bytes stay as they are; whether the password is accepted is a function of
/// those bytes, the index and the password; on success the reader will
/// deliver the bytes that `decrypt_open` names, and says of the entry what
/// the archive says of it.
#[verifier::external_body]
pub(crate) fn zip_by_index_decrypt<'a>(
    zip: &'a mut zip::ZipArchive<std::io::Cursor<Vec<u8>>>,
    index: usize,
    password: &[u8],
) -> (r: Option<EntryReader<'a>>)
    requires
        has_room(archive_source(*old(zip)), index as nat),
    ensures
        r matches Some(reader) ==> {
            &&& reader_declared_path(reader) == entry_declared_path(
                archive_source(*old(zip)),
                index as nat,
            )
            &&& reader_marks_dir(reader) == entry_is_dir(archive_source(*old(zip)), index as nat)
            &&& reader_declared_size(reader) == entry_size(archive_source(*old(zip)), index as nat)
        },
        archive_source(*final(zip)) == archive_source(*old(zip)),
        match r {
            Some(reader) => decrypt_open(archive_source(*old(zip)), index as nat, password@)
                == Some(reader_pending(reader)),
            None => decrypt_open(archive_source(*old(zip)), index as nat, password@) is None,
        },
{
    match zip.by_index_decrypt(index, password) {
        Ok(inner) => Some(EntryReader { inner }),
        Err(_) => None,
    }
}

/// Calls `zip::read::ZipFile::is_dir`: whether the entry is a directory
/// marker. Claims: the answer depends on the entry alone.
#[verifier::external_body]
pub(crate) fn reader_is_dir(reader: &EntryReader<'_>) -> (is_dir: bool)
    ensures
        is_dir == reader_marks_dir(*reader),
{
    reader.inner.is_dir()
}

/// Calls `zip::read::ZipFile::size`: the uncompressed size the entry
/// declares. Claims: the answer depends on the entry alone.
#[verifier::external_body]
pub(crate) fn reader_size(reader: &EntryReader<'_>) -> (size: u64)
    ensures
        size == reader_declared_size(*reader),
{
    reader.inner.size()
}

/// Calls `zip::read::ZipFile::enclosed_name` and hands the path out as the
/// list of its components. `None` where the reader finds the stored name
/// unsafe. Claims: the answer depends on the entry alone.
#[verifier::external_body]
pub(crate) fn reader_enclosed_name(reader: &EntryReader<'_>) -> (declared: Option<Vec<String>>)
    ensures
        match declared {
            Some(path) => reader_declared_path(*reader) == Some(names(path@)),
            None => reader_declared_path(*reader) is None,
        },
{
    match reader.inner.enclosed_name() {
        Some(path) => Some(
            path.components().map(|c| c.as_os_str().to_string_lossy().into_owned()).collect(),
        ),
        None => None,
    }
}

/// Calls `std::io::Read::read` on the entry, with the whole of `buf` as the
/// buffer. `None` stands for a read error. Claims: how the read goes is a
/// function of the reader and the length of the buffer. For `Some(n)`: the
/// first `n` bytes of `buf` are the next `n` bytes of the entry, which are
/// then no longer pending; `n` is 0 only at the end of the entry (or for an
/// empty buffer). `buf` keeps its length.
#[verifier::external_body]
pub(crate) fn reader_read(reader: &mut EntryReader<'_>, buf: &mut Vec<u8>) -> (r: Option<usize>)
    ensures
        final(buf)@.len() == old(buf)@.len(),
        match r {
            Some(n) => reader_read_outcome(*old(reader), old(buf)@.len()) == Some(n as nat),
            None => reader_read_outcome(*old(reader), old(buf)@.len()) is None,
        },
        r matches Some(n) ==> {
            &&& n <= old(buf)@.len()
            &&& n <= reader_pending(*old(reader)).len()
            &&& final(buf)@.take(n as int) == reader_pending(*old(reader)).take(n as int)
            &&& reader_pending(*final(reader)) == reader_pending(*old(reader)).skip(n as int)
            &&& (n == 0 && old(buf)@.len() > 0 ==> reader_pending(*old(reader)).len() == 0)
        },
{
    std::io::Read::read(&mut reader.inner, buf.as_mut_slice()).ok()
}

/// What opening an entry with a password gives: the bytes of the entry, or
/// `None` where the password is not accepted. The password is handed to the
/// archive reader as its UTF-8 bytes. An entry without room for what AES
/// puts around its data is never handed over: no password opens it.
pub open spec fn open_with(source: Seq<u8>, index: nat, password: Seq<char>) -> Option<Seq<u8>> {
    if has_room(source, index) {
        decrypt_open(source, index, encode_utf8(password))
    } else {
        None
    }
}

/// Whether the archive reader opens the entry with this password.
pub open spec fn accepts(source: Seq<u8>, index: nat, password: Seq<char>) -> bool {
    open_with(source, index, password) is Some
}

/// An archive held in memory.
pub struct Archive {
    zip: zip::ZipArchive<std::io::Cursor<Vec<u8>>>,
}

impl Archive {
    /// The bytes the archive was read from.
    pub closed spec fn source(&self) -> Seq<u8> {
        archive_source(self.zip)
    }

    /// The number of entries.
    pub open spec fn entry_count(&self) -> nat {
        archive_entry_count(self.source())
    }

    /// Parses an archive. Bytes that are no archive give `Incompatible`.
    pub fn open(bytes: Vec<u8>) -> (r: Result<Archive, ExtractionError>)
        ensures
            r is Ok == archive_parses(bytes@),
            r matches Ok(archive) ==> archive.source() == bytes@,
            r matches Err(e) ==> e == ExtractionError::Incompatible,
    {
        match zip_open(bytes) {
            Ok(zip) => Ok(Archive { zip }),
            Err(_) => Err(ExtractionError::Incompatible),
        }
    }

    /// The number of entries.
    pub fn len(&self) -> (n: usize)
        ensures
            n == self.entry_count(),
    {
        zip_len(&self.zip)
    }

    /// Whether an entry can be handed to the archive reader with a
    /// password.
    pub fn can_decrypt(&mut self, index: usize) -> (room: bool)
        ensures
            final(self).source() == old(self).source(),
            room == has_room(old(self).source(), index as nat),
    {
        match zip_by_index_raw(&mut self.zip, index) {
            Some((packed, Some(salt))) => {
                let salt: u64 = salt as u64;
                salt <= packed && packed - salt >= 12
            },
            Some((_, None)) => true,
            None => false,
        }
    }

    /// Opens an entry without a password.
    pub fn open_entry<'a>(&'a mut self, index: usize) -> (r: Result<EntryReader<'a>, OpenFailure>)
        ensures
            final(self).source() == old(self).source(),
            r matches Ok(reader) ==> describes(reader, old(self).source(), index as nat),
            match r {
                Ok(reader) => plain_open(old(self).source(), index as nat) == Ok::<
                    Seq<u8>,
                    OpenFailure,
                >(reader_pending(reader)),
                Err(failure) => plain_open(old(self).source(), index as nat) == Err::<
                    Seq<u8>,
                    OpenFailure,
                >(failure),
            },
    {
        zip_by_index(&mut self.zip, index)
    }

    /// Opens an entry with a password. The entry has room for what AES puts
    /// around its data: `can_decrypt` tests that, and `try_password` does so
    /// by itself.
    pub fn open_entry_with<'a>(&'a mut self, index: usize, password: &str) -> (r: Option<
        EntryReader<'a>,
    >)
        requires
            has_room(old(self).source(), index as nat),
        ensures
            final(self).source() == old(self).source(),
            r matches Some(reader) ==> describes(reader, old(self).source(), index as nat),
            match r {
                Some(reader) => open_with(old(self).source(), index as nat, password@) == Some(
                    reader_pending(reader),
                ),
                None => open_with(old(self).source(), index as nat, password@) is None,
            },
    {
        zip_by_index_decrypt(&mut self.zip, index, password.as_bytes())
    }

    /// Whether a password opens an entry. An entry that cannot be handed to
    /// the archive reader is opened by none.
    pub fn try_password(&mut self, index: usize, password: &str) -> (accepted: bool)
        ensures
            final(self).source() == old(self).source(),
            accepted == accepts(old(self).source(), index as nat, password@),
    {
        if self.can_decrypt(index) {
            zip_by_index_decrypt(&mut self.zip, index, password.as_bytes()).is_some()
        } else {
            false
        }
    }
}

} // verus!
