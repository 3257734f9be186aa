//! Extraction of one archive: options, errors, and the submodules that open
//! entries, resolve passwords, compute output paths and run the per-entry
//! protocol.

use vstd::prelude::*;
use vstd::string::*;

use self::path::{is_file_name, names_file};

pub mod archive;
pub mod digest;
pub mod entry;
pub mod outcome;
pub mod password;
pub mod path;

verus! {

/// How the extraction of one archive can fail.
#[derive(Debug, Clone, Copy, PartialEq, Eq, Structural)]
pub enum ExtractionError {
    /// The archive file could not be read at all.
    UnableToOpenFile,
    /// The bytes are not an archive that can be parsed.
    Incompatible,
    /// At least one entry could not be extracted or verified.
    Partial,
    /// The storage refused a write; the whole run has to stop.
    WriteFailed,
}

impl ExtractionError {
    /// The text shown to the user for this error.
    pub open spec fn spec_message(self) -> Seq<char> {
        match self {
            ExtractionError::UnableToOpenFile => "unable to open archive file"@,
            ExtractionError::Incompatible => "incompatible archive"@,
            ExtractionError::Partial => "partial extraction"@,
            ExtractionError::WriteFailed
                => "write failed, this usually means that the drive is full"@,
        }
    }

    /// Only a failed write stops the whole run; every other error is local to
    /// one archive.
    pub open spec fn spec_is_fatal(&self) -> bool {
        *self == ExtractionError::WriteFailed
    }

    pub fn message(&self) -> (text: String)
        ensures
            text@ == self.spec_message(),
    {
        match self {
            ExtractionError::UnableToOpenFile => String::from_str("unable to open archive file"),
            ExtractionError::Incompatible => String::from_str("incompatible archive"),
            ExtractionError::Partial => String::from_str("partial extraction"),
            ExtractionError::WriteFailed => String::from_str(
                "write failed, this usually means that the drive is full",
            ),
        }
    }

    #[verifier::when_used_as_spec(spec_is_fatal)]
    pub fn is_fatal(&self) -> (fatal: bool)
        ensures
            fatal == self.spec_is_fatal(),
    {
        match self {
            ExtractionError::WriteFailed => true,
            _ => false,
        }
    }
}

/// What the extraction of one archive is given.
pub struct ExtractOpts {
    /// Whether each written file is read back and its digest compared.
    pub verify_checksum: bool,
    /// The directory the traversal started from, as path components.
    pub zip_root: Vec<String>,
    /// The directory the output goes to, as path components.
    pub outdir: Vec<String>,
    /// The archive's own path, as path components; it lies below `zip_root`.
    pub zip_path: Vec<String>,
    /// How many bytes are moved at a time.
    pub block_size: usize,
    /// Whether entries go next to the archive rather than into a directory
    /// named after it.
    pub unwrap: bool,
    /// Whether a file that already exists is written over.
    pub overwrite: bool,
    /// The passwords to try on encrypted entries, in this order.
    pub passwords: Vec<String>,
}

impl ExtractOpts {
    /// The options an extraction can work with: a block size above zero, and
    /// an archive path that lies below the traversal root and ends in a file
    /// name.
    pub open spec fn wf(&self) -> bool {
        &&& self.block_size > 0
        &&& self.zip_root@.len() < self.zip_path@.len()
        &&& is_file_name(self.zip_path@.last()@)
    }

    /// Tests `wf` at run time.
    pub fn is_valid(&self) -> (valid: bool)
        ensures
            valid == self.wf(),
    {
        if self.block_size == 0 || self.zip_root.len() >= self.zip_path.len() {
            return false;
        }
        names_file(self.zip_path[self.zip_path.len() - 1].as_str())
    }
}

/// Why an entry was not extracted as it should have been. None of these
/// stops the archive: the entry is reported and the next one is taken.
#[derive(Debug, Clone, Copy, PartialEq, Eq, Structural)]
pub enum Defect {
    /// The entry could not be opened.
    Unreadable,
    /// The entry is encrypted and no password was supplied.
    NoPassword,
    /// The entry is encrypted and none of the passwords opens it.
    WrongPasswords,
    /// The stored name cannot be used safely as a path below the output
    /// directory.
    UnsafePath,
    /// A directory could not be created.
    CreateDir,
    /// The output file could not be created.
    CreateFile,
    /// Reading the entry's bytes failed before its end.
    Read,
    /// The written file could not be opened again to verify it.
    Reopen,
    /// Reading the written file back failed.
    ReadBack,
    /// The written file does not have the digest of the bytes read from
    /// the archive.
    Checksum,
}

/// How one entry ended.
#[derive(Debug, Clone, Copy, PartialEq, Eq, Structural)]
pub enum EntryOutcome {
    /// Written (and verified, where asked) without a defect.
    Extracted,
    /// Left alone: the file exists and is not to be written over.
    Skipped,
    /// Processed with at least one defect.
    Failed,
    /// A write was refused: the run has to stop.
    Fatal,
}

} // verus!
