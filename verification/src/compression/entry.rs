//! The extraction of one entry, as a conversation with a driver.
//!
//! A session opens the entry, decides where it goes, and then names one
//! request at a time: check that a path exists, create a directory, create
//! the file, write a chunk, flush, open the file again, read it back. The
//! driver carries the request out on its file system and reports how it
//! went; the session decides what follows. Bytes never leave the archive in
//! pieces larger than the block size.

use vstd::prelude::*;
use vstd::slice::slice_subrange;
use vstd::string::*;

use super::archive::{
    accepts, entry_declared_path, entry_is_dir, entry_size, open_with, plain_open,
    reader_declared_path, reader_declared_size, reader_enclosed_name, reader_is_dir,
    reader_marks_dir, reader_pending, reader_read, reader_read_outcome, reader_size, Archive,
    EntryReader, OpenFailure,
};
use super::digest::{
    digest_hex, hasher_finalize, hasher_input, hasher_new, hasher_update, same_bytes, sha256,
    Hasher,
};
use super::password::{find_password, first_accepted, lemma_first_accepted};
use super::path::{is_enclosed, join_output_path, names, output_path, stays_inside};
use super::{Defect, EntryOutcome, ExtractOpts};

verus! {

/// The path a request is about.
#[derive(Debug, Clone, Copy, PartialEq, Eq, Structural)]
pub enum Target {
    /// The path the entry is written to.
    Entry,
    /// The directory that path lies in.
    Parent,
}

/// What the driver is asked to do next.
#[derive(Debug, Clone, Copy, PartialEq, Eq, Structural)]
pub enum Request {
    /// Say whether the path exists.
    Exists(Target),
    /// Create the directory and every missing ancestor.
    CreateDirAll(Target),
    /// Create the output file, emptying it if it exists.
    CreateFile,
    /// Write the session's current chunk to the output file, all of it.
    Write,
    /// Flush the output file and close it.
    Flush,
    /// Open the written file for reading.
    Reopen,
    /// Read at most a block from the reopened file; no bytes means its end.
    ReadBack,
}

/// Where a session stands: waiting for the answer to a request, or done.
#[derive(Debug, Clone, Copy, PartialEq, Eq, Structural)]
pub enum Step {
    Ask(Request),
    Finished(EntryOutcome),
}

/// What a session is, to its driver.
pub struct SessionView {
    /// The request that is open, or how the entry ended.
    pub step: Step,
    /// Whether the entry is a directory marker.
    pub is_dir: bool,
    /// Whether the written file is read back and compared.
    pub verify: bool,
    /// The path the entry is written to.
    pub target: Seq<Seq<char>>,
    /// The block size.
    pub block_size: nat,
    /// The entry's decompressed bytes, as they stood when it was opened.
    pub content: Seq<u8>,
    /// The bytes handed out for writing so far, in order.
    pub written: Seq<u8>,
    /// The bytes read back so far, in order.
    pub reread: Seq<u8>,
    /// The bytes of the write that is asked for.
    pub chunk: Seq<u8>,
    /// Whether the entry's bytes were read to their end.
    pub complete: bool,
    /// What went wrong so far.
    pub defects: Seq<Defect>,
    /// The uncompressed size that the entry declares.
    pub size: u64,
    /// The bytes moved in the pass that is under way: written at first, read
    /// back once the file was opened again.
    pub progress: u64,
    /// The digest of the bytes written, once the file is flushed and is to
    /// be verified.
    pub input_digest: Option<Seq<u8>>,
    /// The digest of the bytes read back, once the read-back has ended.
    pub output_digest: Option<Seq<u8>>,
    /// How the next read from the archive goes, for a buffer of the block
    /// size: the number of bytes it delivers, or `None` where it fails.
    pub next_read: Option<nat>,
}

/// A byte count as the progress counter holds it: it stops at the largest
/// number it can hold.
pub open spec fn clip(count: int) -> u64 {
    if count <= u64::MAX {
        count as u64
    } else {
        u64::MAX
    }
}

/// An entry without a defect is extracted, one with a defect has failed.
pub open spec fn verdict(defects: Seq<Defect>) -> EntryOutcome {
    if defects.len() == 0 {
        EntryOutcome::Extracted
    } else {
        EntryOutcome::Failed
    }
}

/// The first request for an entry. A directory is created. A file is looked
/// for first, unless files are written over; then its directory is looked
/// for, unless the path has none.
pub open spec fn first_step(is_dir: bool, overwrite: bool, has_parent: bool) -> Step {
    if is_dir {
        Step::Ask(Request::CreateDirAll(Target::Entry))
    } else if !overwrite {
        Step::Ask(Request::Exists(Target::Entry))
    } else {
        after_target_check(has_parent)
    }
}

/// What follows once the file is known to be absent, or to be written over.
pub open spec fn after_target_check(has_parent: bool) -> Step {
    if has_parent {
        Step::Ask(Request::Exists(Target::Parent))
    } else {
        Step::Ask(Request::CreateFile)
    }
}

impl SessionView {
    pub open spec fn with_step(self, step: Step) -> SessionView {
        SessionView { step, ..self }
    }

    pub open spec fn with_defect(self, defect: Defect) -> SessionView {
        SessionView { defects: self.defects.push(defect), ..self }
    }

    /// A session on which nothing has happened yet.
    pub open spec fn starts(self, overwrite: bool) -> bool {
        &&& self.block_size > 0
        &&& self.step == first_step(self.is_dir, overwrite, self.target.len() > 0)
        &&& self.written.len() == 0
        &&& self.reread.len() == 0
        &&& self.chunk.len() == 0
        &&& self.defects.len() == 0
        &&& !self.complete
        &&& self.progress == 0
        &&& self.input_digest is None
        &&& self.output_digest is None
    }

    /// What holds of every session, whatever the driver answered.
    pub open spec fn inv(self) -> bool {
        &&& self.block_size > 0
        &&& self.written.is_prefix_of(self.content)
        &&& self.chunk.len() <= self.block_size
        &&& (self.complete ==> self.written == self.content)
        &&& (self.is_dir ==> self.written.len() == 0 && self.reread.len() == 0)
        &&& (!self.verify ==> self.reread.len() == 0)
        &&& (self.input_digest matches Some(digest) ==> digest == sha256(self.written))
        &&& (self.output_digest matches Some(digest) ==> digest == sha256(self.reread))
        &&& match self.step {
            Step::Ask(Request::Write) => {
                &&& !self.is_dir
                &&& self.chunk.len() > 0
                &&& self.chunk.len() <= self.written.len()
                &&& self.written.skip(self.written.len() - self.chunk.len()) == self.chunk
                &&& self.reread.len() == 0
                &&& !self.complete
                &&& self.progress == clip(self.written.len() as int)
                &&& self.input_digest is None
                &&& self.output_digest is None
            },
            Step::Ask(Request::Flush) => {
                &&& !self.is_dir
                &&& self.chunk.len() == 0
                &&& self.reread.len() == 0
                &&& (self.complete || self.defects.len() > 0)
                &&& self.progress == clip(self.written.len() as int)
                &&& self.input_digest is None
                &&& self.output_digest is None
            },
            Step::Ask(Request::Reopen) => {
                &&& !self.is_dir
                &&& self.verify
                &&& self.chunk.len() == 0
                &&& self.reread.len() == 0
                &&& (self.complete || self.defects.len() > 0)
                &&& self.progress == clip(self.written.len() as int)
                &&& self.input_digest is Some
                &&& self.output_digest is None
            },
            Step::Ask(Request::ReadBack) => {
                &&& !self.is_dir
                &&& self.verify
                &&& self.chunk.len() == 0
                &&& (self.complete || self.defects.len() > 0)
                &&& self.progress == clip(self.reread.len() as int)
                &&& self.input_digest is Some
                &&& self.output_digest is None
            },
            Step::Ask(Request::CreateDirAll(Target::Entry)) => {
                &&& self.is_dir
                &&& self.chunk.len() == 0
                &&& self.defects.len() == 0
                &&& self.progress == 0
                &&& self.input_digest is None
                &&& self.output_digest is None
            },
            Step::Ask(Request::CreateFile) => {
                &&& !self.is_dir
                &&& self.chunk.len() == 0
                &&& self.written.len() == 0
                &&& self.reread.len() == 0
                &&& !self.complete
                &&& self.progress == 0
                &&& self.input_digest is None
                &&& self.output_digest is None
            },
            Step::Ask(_) => {
                &&& !self.is_dir
                &&& self.chunk.len() == 0
                &&& self.written.len() == 0
                &&& self.reread.len() == 0
                &&& self.defects.len() == 0
                &&& !self.complete
                &&& self.progress == 0
                &&& self.input_digest is None
                &&& self.output_digest is None
            },
            Step::Finished(EntryOutcome::Extracted) => {
                &&& self.chunk.len() == 0
                &&& self.defects.len() == 0
                &&& (!self.is_dir ==> self.complete)
                &&& (!self.is_dir && self.verify ==> sha256(self.reread) == sha256(self.written))
                &&& (!self.is_dir && self.verify ==> self.input_digest is Some
                    && self.output_digest == self.input_digest)
            },
            Step::Finished(EntryOutcome::Skipped) => {
                &&& !self.is_dir
                &&& self.chunk.len() == 0
                &&& self.written.len() == 0
                &&& self.defects.len() == 0
            },
            Step::Finished(EntryOutcome::Failed) => {
                &&& self.chunk.len() == 0
                &&& self.defects.len() > 0
            },
            Step::Finished(EntryOutcome::Fatal) => !self.is_dir && self.chunk.len() == 0,
        }
    }

    /// The session after the next block was asked of the archive. A read that
    /// fails is a defect and ends the writing; so does, without a defect, a
    /// read that delivers nothing; the bytes of any other read are the chunk
    /// to write. How the read after that goes is open.
    pub open spec fn pumped(self, post: SessionView) -> bool {
        match self.next_read {
            None => post == SessionView {
                step: Step::Ask(Request::Flush),
                chunk: Seq::<u8>::empty(),
                defects: self.defects.push(Defect::Read),
                next_read: post.next_read,
                ..self
            },
            Some(count) => if count == 0 {
                &&& post == SessionView {
                    step: Step::Ask(Request::Flush),
                    chunk: Seq::<u8>::empty(),
                    complete: true,
                    next_read: post.next_read,
                    ..self
                }
                &&& self.written == self.content
            } else {
                &&& post == SessionView {
                    step: Step::Ask(Request::Write),
                    chunk: post.chunk,
                    written: self.written + post.chunk,
                    progress: clip(self.progress + post.chunk.len()),
                    next_read: post.next_read,
                    ..self
                }
                &&& post.chunk.len() == count
                &&& count <= self.block_size
                &&& post.written.is_prefix_of(self.content)
            },
        }
    }

    /// The session after the read-back ended, by the file's end (`ok`) or by
    /// a failed read: the digests are compared and the entry is done.
    pub open spec fn compared(self, ok: bool) -> SessionView {
        let seen = if ok {
            self.defects
        } else {
            self.defects.push(Defect::ReadBack)
        };
        let defects = if sha256(self.reread) == sha256(self.written) {
            seen
        } else {
            seen.push(Defect::Checksum)
        };
        SessionView {
            step: Step::Finished(verdict(defects)),
            defects,
            output_digest: Some(sha256(self.reread)),
            ..self
        }
    }

    /// How a session moves when the driver answers the open request with
    /// `ok` (the path exists; the operation succeeded) and, for a read-back,
    /// the bytes `data`. A finished session stays as it is.
    pub open spec fn advances(self, ok: bool, data: Seq<u8>, post: SessionView) -> bool {
        match self.step {
            Step::Finished(_) => post == self,
            Step::Ask(Request::Exists(Target::Entry)) => post == self.with_step(
                if ok {
                    Step::Finished(EntryOutcome::Skipped)
                } else {
                    after_target_check(self.target.len() > 0)
                },
            ),
            Step::Ask(Request::Exists(Target::Parent)) => post == self.with_step(
                if ok {
                    Step::Ask(Request::CreateFile)
                } else {
                    Step::Ask(Request::CreateDirAll(Target::Parent))
                },
            ),
            Step::Ask(Request::CreateDirAll(Target::Parent)) => post == (if ok {
                self
            } else {
                self.with_defect(Defect::CreateDir)
            }).with_step(Step::Ask(Request::CreateFile)),
            Step::Ask(Request::CreateDirAll(Target::Entry)) => post == if ok {
                self.with_step(Step::Finished(EntryOutcome::Extracted))
            } else {
                self.with_defect(Defect::CreateDir).with_step(
                    Step::Finished(EntryOutcome::Failed),
                )
            },
            Step::Ask(Request::CreateFile) => if ok {
                self.pumped(post)
            } else {
                post == self.with_defect(Defect::CreateFile).with_step(
                    Step::Finished(EntryOutcome::Failed),
                )
            },
            Step::Ask(Request::Write) => if ok {
                self.pumped(post)
            } else {
                post == SessionView {
                    step: Step::Finished(EntryOutcome::Fatal),
                    chunk: Seq::<u8>::empty(),
                    ..self
                }
            },
            Step::Ask(Request::Flush) => post == if !ok {
                self.with_step(Step::Finished(EntryOutcome::Fatal))
            } else if self.verify {
                SessionView {
                    step: Step::Ask(Request::Reopen),
                    input_digest: Some(sha256(self.written)),
                    ..self
                }
            } else {
                self.with_step(Step::Finished(verdict(self.defects)))
            },
            Step::Ask(Request::Reopen) => post == if ok {
                SessionView { step: Step::Ask(Request::ReadBack), progress: 0, ..self }
            } else {
                self.with_defect(Defect::Reopen).with_step(Step::Finished(EntryOutcome::Failed))
            },
            Step::Ask(Request::ReadBack) => post == if ok && data.len() > 0 {
                SessionView {
                    reread: self.reread + data,
                    progress: clip(self.progress + data.len()),
                    ..self
                }
            } else {
                self.compared(ok)
            },
        }
    }
}

/// How an entry is to be opened.
#[derive(Debug, Clone, Copy, PartialEq, Eq, Structural)]
pub enum Access {
    /// As it is: it is not encrypted.
    Plain,
    /// With the first password that fits.
    Locked,
}

/// What the attempt to open an entry without a password says about it. An
/// entry that opened is plain. One that asks for a password is locked,
/// unless there is no password to try. Any other failure is final.
pub open spec fn access_of(probe: Result<(), OpenFailure>, candidates: nat) -> Result<
    Access,
    Defect,
> {
    match probe {
        Ok(_) => Ok(Access::Plain),
        Err(OpenFailure::Unreadable) => Err(Defect::Unreadable),
        Err(OpenFailure::PasswordRequired) => if candidates == 0 {
            Err(Defect::NoPassword)
        } else {
            Ok(Access::Locked)
        },
    }
}

/// Decides how an entry is to be opened, as `access_of` defines it.
pub fn plan_access(probe: Result<(), OpenFailure>, candidates: usize) -> (r: Result<Access, Defect>)
    ensures
        r == access_of(probe, candidates as nat),
{
    match probe {
        Ok(_) => Ok(Access::Plain),
        Err(OpenFailure::Unreadable) => Err(Defect::Unreadable),
        Err(OpenFailure::PasswordRequired) => {
            if candidates == 0 {
                Err(Defect::NoPassword)
            } else {
                Ok(Access::Locked)
            }
        },
    }
}

/// The attempt to open an entry without a password, without its bytes.
pub open spec fn probe_of(source: Seq<u8>, index: nat) -> Result<(), OpenFailure> {
    match plain_open(source, index) {
        Ok(_) => Ok(()),
        Err(failure) => Err(failure),
    }
}

/// A session starts in a state that the invariant admits.
pub proof fn lemma_start_is_sound(view: SessionView, overwrite: bool)
    requires
        view.starts(overwrite),
    ensures
        view.inv(),
{
    assert(view.written =~= Seq::<u8>::empty());
    assert(view.written.is_prefix_of(view.content));
}

/// Whatever the driver answers, the invariant holds of the session that
/// follows.
pub proof fn lemma_advance_is_sound(pre: SessionView, ok: bool, data: Seq<u8>, post: SessionView)
    requires
        pre.inv(),
        pre.advances(ok, data, post),
    ensures
        post.inv(),
{
    match pre.step {
        Step::Ask(Request::CreateFile) | Step::Ask(Request::Write) => {
            if ok && post.step == Step::Ask(Request::Write) {
                assert(post.written.skip(post.written.len() - post.chunk.len()) =~= post.chunk);
            }
        },
        _ => {},
    }
}

/// The states of a session, one after each answer of the driver.
pub open spec fn is_run(states: Seq<SessionView>, answers: Seq<(bool, Seq<u8>)>) -> bool {
    &&& states.len() == answers.len() + 1
    &&& forall|i: int|
        0 <= i < answers.len() ==> (#[trigger] states[i]).advances(
            answers[i].0,
            answers[i].1,
            states[i + 1],
        )
}

/// Whatever the driver answers and however long it goes on, every state of
/// a session keeps the invariant: what was handed out for writing is the
/// beginning of the entry, no session is counted as extracted that was not
/// read to its end, and the entry stays the same.
pub proof fn lemma_run_is_sound(
    states: Seq<SessionView>,
    answers: Seq<(bool, Seq<u8>)>,
    overwrite: bool,
)
    requires
        is_run(states, answers),
        states[0].starts(overwrite),
    ensures
        forall|i: int|
            0 <= i < states.len() ==> {
                &&& (#[trigger] states[i]).inv()
                &&& states[i].content == states[0].content
                &&& states[i].block_size == states[0].block_size
                &&& states[i].target == states[0].target
            },
    decreases answers.len(),
{
    lemma_start_is_sound(states[0], overwrite);
    if answers.len() > 0 {
        let shorter = states.drop_last();
        let fewer = answers.drop_last();
        assert(is_run(shorter, fewer)) by {
            assert forall|i: int| 0 <= i < fewer.len() implies (#[trigger] shorter[i]).advances(
                fewer[i].0,
                fewer[i].1,
                shorter[i + 1],
            ) by {
                assert(states[i].advances(answers[i].0, answers[i].1, states[i + 1]));
            }
        }
        lemma_run_is_sound(shorter, fewer, overwrite);
        let last = answers.len() - 1;
        assert(shorter[last] == states[last]);
        assert(states[last].advances(answers[last].0, answers[last].1, states[last + 1]));
        lemma_advance_is_sound(states[last], answers[last].0, answers[last].1, states[last + 1]);
        assert forall|i: int| 0 <= i < states.len() implies {
            &&& (#[trigger] states[i]).inv()
            &&& states[i].content == states[0].content
            &&& states[i].block_size == states[0].block_size
            &&& states[i].target == states[0].target
        } by {
            if i < states.len() - 1 {
                assert(shorter[i] == states[i]);
            }
        }
    }
}

/// What an entry opens to: its bytes, or why it cannot be had. A plain
/// entry is taken as it is. A locked one is opened with the first candidate
/// that the archive reader accepts.
pub open spec fn opening(source: Seq<u8>, index: nat, candidates: Seq<Seq<char>>) -> Result<
    Seq<u8>,
    Defect,
> {
    match access_of(probe_of(source, index), candidates.len()) {
        Err(defect) => Err(defect),
        Ok(Access::Plain) => Ok(plain_open(source, index)->Ok_0),
        Ok(Access::Locked) => match first_accepted(source, index, candidates) {
            None => Err(Defect::WrongPasswords),
            Some(k) => match open_with(source, index, candidates[k]) {
                Some(bytes) => Ok(bytes),
                None => Err(Defect::Unreadable),
            },
        },
    }
}

/// Where an entry with the declared path goes, or `UnsafePath` where the
/// archive reader gave no usable path or the path has a `..` in it.
pub open spec fn planned_target(opts: ExtractOpts, declared: Option<Seq<Seq<char>>>) -> Result<
    Seq<Seq<char>>,
    Defect,
> {
    match declared {
        Some(entry) if is_enclosed(entry) => Ok(
            output_path(
                names(opts.outdir@),
                names(opts.zip_root@),
                names(opts.zip_path@),
                opts.unwrap,
                entry,
            ),
        ),
        _ => Err(Defect::UnsafePath),
    }
}

/// A declared path as the list of its components' characters.
pub open spec fn declared_names(declared: Option<Vec<String>>) -> Option<Seq<Seq<char>>> {
    match declared {
        Some(path) => Some(names(path@)),
        None => None,
    }
}

/// What beginning an entry comes to: the bytes it opens on and the path it
/// goes to, or the defect that keeps it from being extracted. The entry is
/// opened first; then the path that the archive declares for it is given
/// its place below the output directory.
pub open spec fn beginning(opts: ExtractOpts, source: Seq<u8>, index: nat) -> Result<
    (Seq<u8>, Seq<Seq<char>>),
    Defect,
> {
    match opening(source, index, names(opts.passwords@)) {
        Err(defect) => Err(defect),
        Ok(bytes) => match planned_target(opts, entry_declared_path(source, index)) {
            Err(defect) => Err(defect),
            Ok(target) => Ok((bytes, target)),
        },
    }
}

/// Decides where an entry goes, from the path the archive reader declared
/// for it. The path is tested for `..` before anything is joined.
pub fn plan_target(opts: &ExtractOpts, declared: &Option<Vec<String>>) -> (r: Result<
    Vec<String>,
    Defect,
>)
    requires
        opts.wf(),
    ensures
        match r {
            Ok(target) => planned_target(*opts, declared_names(*declared)) == Ok::<
                Seq<Seq<char>>,
                Defect,
            >(names(target@)),
            Err(defect) => planned_target(*opts, declared_names(*declared)) == Err::<
                Seq<Seq<char>>,
                Defect,
            >(defect),
        },
{
    match declared {
        Some(entry) => {
            if stays_inside(entry) {
                Ok(join_output_path(&opts.outdir, &opts.zip_root, &opts.zip_path, opts.unwrap, entry))
            } else {
                Err(Defect::UnsafePath)
            }
        },
        None => Err(Defect::UnsafePath),
    }
}

/// The first request for an entry, as `first_step` defines it.
pub fn plan_first_step(is_dir: bool, overwrite: bool, has_parent: bool) -> (step: Step)
    ensures
        step == first_step(is_dir, overwrite, has_parent),
{
    if is_dir {
        Step::Ask(Request::CreateDirAll(Target::Entry))
    } else if !overwrite {
        Step::Ask(Request::Exists(Target::Entry))
    } else if has_parent {
        Step::Ask(Request::Exists(Target::Parent))
    } else {
        Step::Ask(Request::CreateFile)
    }
}

/// A path with a `..` in it is never given a place to be written to,
/// whatever the options are.
pub proof fn lemma_parent_segment_is_refused(
    opts: ExtractOpts,
    source: Seq<u8>,
    index: nat,
    declared: Seq<Seq<char>>,
    i: int,
)
    requires
        0 <= i < declared.len(),
        super::path::is_parent_segment(declared[i]),
    ensures
        planned_target(opts, Some(declared)) == Err::<Seq<Seq<char>>, Defect>(Defect::UnsafePath),
        entry_declared_path(source, index) == Some(declared) ==> beginning(opts, source, index)
            is Err,
{
}

/// Candidates that the archive reader rejects make no difference: with a
/// rejected password in front of an accepted one, an entry that asks for a
/// password opens on the same bytes as with the accepted one alone.
pub proof fn lemma_opening_skips_rejected(
    source: Seq<u8>,
    index: nat,
    wrong: Seq<char>,
    correct: Seq<char>,
)
    requires
        !super::archive::accepts(source, index, wrong),
        super::archive::accepts(source, index, correct),
    ensures
        opening(source, index, seq![wrong, correct]) == opening(source, index, seq![correct]),
        plain_open(source, index) == Err::<Seq<u8>, OpenFailure>(OpenFailure::PasswordRequired)
            ==> opening(source, index, seq![wrong, correct]) == Ok::<Seq<u8>, Defect>(
            open_with(source, index, correct)->Some_0,
        ),
{
    super::password::lemma_rejected_candidates_are_skipped(source, index, wrong, correct);
}

/// An entry that asks for a password and is given only passwords that the
/// archive reader rejects cannot be had.
pub proof fn lemma_opening_without_match(source: Seq<u8>, index: nat, candidates: Seq<Seq<char>>)
    requires
        plain_open(source, index) == Err::<Seq<u8>, OpenFailure>(OpenFailure::PasswordRequired),
        forall|j: int|
            0 <= j < candidates.len() ==> !super::archive::accepts(
                source,
                index,
                #[trigger] candidates[j],
            ),
    ensures
        opening(source, index, candidates) == Err::<Seq<u8>, Defect>(
            if candidates.len() == 0 {
                Defect::NoPassword
            } else {
                Defect::WrongPasswords
            },
        ),
{
    super::password::lemma_all_rejected(source, index, candidates);
}

/// A file that exists is left alone unless files are written over: the
/// entry ends as skipped, nothing was handed out for writing, and nothing
/// is asked for afterwards.
pub proof fn lemma_existing_file_is_kept(pre: SessionView, data: Seq<u8>, post: SessionView)
    requires
        pre.inv(),
        pre.step == Step::Ask(Request::Exists(Target::Entry)),
        pre.advances(true, data, post),
    ensures
        post.step == Step::Finished(EntryOutcome::Skipped),
        post.written.len() == 0,
        post.defects.len() == 0,
        forall|ok: bool, more: Seq<u8>, next: SessionView|
            post.advances(ok, more, next) ==> next == post,
{
}

/// The question whether the file exists is asked exactly where files are
/// not written over; where they are, the file is created whatever is there.
pub proof fn lemma_overwrite_policy(overwrite: bool, has_parent: bool)
    ensures
        first_step(false, overwrite, has_parent) == Step::Ask(Request::Exists(Target::Entry))
            <==> !overwrite,
{
}

/// An entry that ended as extracted was written whole: the bytes handed out
/// for writing are the entry's bytes. Where the file was verified, the bytes
/// read back have the digest of the bytes written.
pub proof fn lemma_extracted_is_whole(view: SessionView)
    requires
        view.inv(),
        view.step == Step::Finished(EntryOutcome::Extracted),
        !view.is_dir,
    ensures
        view.written == view.content,
        view.verify ==> sha256(view.reread) == sha256(view.written),
{
}

/// A file that reads back as it was written passes the comparison: the end
/// of the read-back adds no defect.
pub proof fn lemma_faithful_file_passes(view: SessionView)
    requires
        view.reread == view.written,
    ensures
        view.compared(true).defects == view.defects,
        view.compared(true).step == Step::Finished(verdict(view.defects)),
{
}

/// Writing comes to an end: each write that is asked for hands out at least
/// one more byte of the entry, and never more than the entry has.
pub proof fn lemma_each_write_moves_on(pre: SessionView, ok: bool, data: Seq<u8>, post: SessionView)
    requires
        pre.inv(),
        pre.advances(ok, data, post),
        post.step == Step::Ask(Request::Write),
    ensures
        pre.written.len() < post.written.len() <= post.content.len(),
        post.written.len() - pre.written.len() <= pre.block_size,
{
    lemma_advance_is_sound(pre, ok, data, post);
}

/// An answer after which nothing is amiss: the file was not there, what was
/// asked for was done, the archive reader's read did not fail, and the file
/// read back as it was written.
pub open spec fn goes_well(state: SessionView, answer: (bool, Seq<u8>)) -> bool {
    match state.step {
        Step::Ask(Request::Exists(Target::Entry)) => !answer.0,
        Step::Ask(Request::Exists(Target::Parent)) => true,
        Step::Ask(Request::CreateFile) | Step::Ask(Request::Write) => answer.0
            && state.next_read is Some,
        Step::Ask(Request::ReadBack) => answer.0 && (answer.1.len() == 0 ==> state.reread
            == state.written),
        Step::Ask(_) => answer.0,
        Step::Finished(_) => true,
    }
}

/// The states of a session in which every answer went well.
#[verifier::opaque]
pub open spec fn is_clean_run(states: Seq<SessionView>, answers: Seq<(bool, Seq<u8>)>) -> bool {
    &&& is_run(states, answers)
    &&& forall|i: int| 0 <= i < answers.len() ==> goes_well(#[trigger] states[i], answers[i])
}

/// A session with nothing amiss: no defect, and not ended other than as
/// extracted.
pub open spec fn on_course(state: SessionView) -> bool {
    &&& state.defects.len() == 0
    &&& state.step matches Step::Finished(outcome) ==> outcome == EntryOutcome::Extracted
}

/// A session with nothing amiss on the entry it began with.
#[verifier::opaque]
pub open spec fn fine(state: SessionView, first: SessionView) -> bool {
    &&& state.inv()
    &&& on_course(state)
    &&& state.content == first.content
    &&& state.is_dir == first.is_dir
    &&& state.verify == first.verify
}

/// What it means for a session to be fine.
pub proof fn lemma_fine(state: SessionView, first: SessionView)
    ensures
        fine(state, first) <==> {
            &&& state.inv()
            &&& on_course(state)
            &&& state.content == first.content
            &&& state.is_dir == first.is_dir
            &&& state.verify == first.verify
        },
{
    reveal(fine);
}

/// After an answer that went well, a session with nothing amiss has nothing
/// amiss.
pub proof fn lemma_clean_step(
    pre: SessionView,
    answer: (bool, Seq<u8>),
    post: SessionView,
    first: SessionView,
)
    requires
        fine(pre, first),
        pre.advances(answer.0, answer.1, post),
        goes_well(pre, answer),
    ensures
        fine(post, first),
{
    reveal(fine);
    lemma_advance_is_sound(pre, answer.0, answer.1, post);
}

/// Where every answer goes well, nothing is ever amiss with the session.
pub proof fn lemma_clean_run_is_fine(
    states: Seq<SessionView>,
    answers: Seq<(bool, Seq<u8>)>,
    overwrite: bool,
)
    requires
        is_clean_run(states, answers),
        states[0].starts(overwrite),
    ensures
        forall|i: int| 0 <= i < states.len() ==> fine(#[trigger] states[i], states[0]),
    decreases answers.len(),
{
    reveal(is_clean_run);
    assert(fine(states[0], states[0])) by {
        lemma_start_is_sound(states[0], overwrite);
        lemma_fine(states[0], states[0]);
    }
    if answers.len() > 0 {
        let shorter = states.drop_last();
        let fewer = answers.drop_last();
        assert(is_clean_run(shorter, fewer)) by {
            assert forall|i: int| 0 <= i < fewer.len() implies (#[trigger] shorter[i]).advances(
                fewer[i].0,
                fewer[i].1,
                shorter[i + 1],
            ) by {
                assert(states[i].advances(answers[i].0, answers[i].1, states[i + 1]));
            }
            assert forall|i: int| 0 <= i < fewer.len() implies goes_well(
                #[trigger] shorter[i],
                fewer[i],
            ) by {
                assert(goes_well(states[i], answers[i]));
            }
        }
        assert(shorter[0] == states[0]);
        lemma_clean_run_is_fine(shorter, fewer, overwrite);
        let last = answers.len() - 1;
        assert(shorter[last] == states[last]);
        assert(fine(states[last], states[0]));
        assert(states[last].advances(answers[last].0, answers[last].1, states[last + 1]));
        assert(goes_well(states[last], answers[last]));
        lemma_clean_step(states[last], answers[last], states[last + 1], states[0]);
        assert forall|i: int| 0 <= i < states.len() implies fine(
            #[trigger] states[i],
            states[0],
        ) by {
            if i < states.len() - 1 {
                assert(shorter[i] == states[i]);
            }
        }
    }
}

/// Where every answer goes well, the entry is extracted: once the session
/// has ended it has ended as extracted, with the whole of the entry handed
/// out for writing and, where the file was verified, with the digest of
/// what was read back equal to the digest of the entry. This holds for
/// every block size.
pub proof fn lemma_clean_run_extracts(
    states: Seq<SessionView>,
    answers: Seq<(bool, Seq<u8>)>,
    overwrite: bool,
)
    requires
        is_clean_run(states, answers),
        states[0].starts(overwrite),
        states.last().step is Finished,
    ensures
        states.last().step == Step::Finished(EntryOutcome::Extracted),
        states.last().defects.len() == 0,
        !states[0].is_dir ==> states.last().written == states[0].content,
        states[0].is_dir ==> states.last().written == Seq::<u8>::empty(),
        !states[0].is_dir && states[0].verify ==> sha256(states.last().reread) == sha256(
            states[0].content,
        ),
{
    lemma_clean_run_is_fine(states, answers, overwrite);
    let end = states.last();
    assert(states.len() > 0) by {
        reveal(is_clean_run);
    }
    assert(fine(end, states[0]));
    lemma_fine(end, states[0]);
    if states[0].is_dir {
        assert(end.written =~= Seq::<u8>::empty());
    }
}

/// The block size does not show in the result. Two runs on the same entry,
/// with whatever block sizes, in which every answer goes well and which
/// come to an end, end alike: both as extracted, with the same bytes handed
/// out for writing.
pub proof fn lemma_block_size_does_not_matter(
    one: Seq<SessionView>,
    answers_one: Seq<(bool, Seq<u8>)>,
    other: Seq<SessionView>,
    answers_other: Seq<(bool, Seq<u8>)>,
    overwrite: bool,
)
    requires
        is_clean_run(one, answers_one),
        is_clean_run(other, answers_other),
        one[0].starts(overwrite),
        other[0].starts(overwrite),
        one[0].content == other[0].content,
        one[0].is_dir == other[0].is_dir,
        one.last().step is Finished,
        other.last().step is Finished,
    ensures
        one.last().step == other.last().step,
        one.last().written == other.last().written,
{
    lemma_clean_run_extracts(one, answers_one, overwrite);
    lemma_clean_run_extracts(other, answers_other, overwrite);
}

/// Where files are written over, a session never asks whether the file is
/// there: what it hands out goes into the file whatever the file held.
pub proof fn lemma_overwrite_never_asks(
    states: Seq<SessionView>,
    answers: Seq<(bool, Seq<u8>)>,
)
    requires
        is_run(states, answers),
        states[0].starts(true),
    ensures
        forall|i: int|
            0 <= i < states.len() ==> (#[trigger] states[i]).step != Step::Ask(
                Request::Exists(Target::Entry),
            ),
    decreases answers.len(),
{
    if answers.len() > 0 {
        let shorter = states.drop_last();
        let fewer = answers.drop_last();
        assert(is_run(shorter, fewer)) by {
            assert forall|i: int| 0 <= i < fewer.len() implies (#[trigger] shorter[i]).advances(
                fewer[i].0,
                fewer[i].1,
                shorter[i + 1],
            ) by {
                assert(states[i].advances(answers[i].0, answers[i].1, states[i + 1]));
            }
        }
        lemma_overwrite_never_asks(shorter, fewer);
        let last = answers.len() - 1;
        assert(shorter[last] == states[last]);
        assert(states[last].advances(answers[last].0, answers[last].1, states[last + 1]));
        assert forall|i: int| 0 <= i < states.len() implies (#[trigger] states[i]).step
            != Step::Ask(Request::Exists(Target::Entry)) by {
            if i < states.len() - 1 {
                assert(shorter[i] == states[i]);
            }
        }
    }
}

/// The extraction of one entry.
pub struct EntrySession<'a> {
    reader: EntryReader<'a>,
    step: Step,
    is_dir: bool,
    verify: bool,
    size: u64,
    progress: u64,
    target: Vec<String>,
    buf: Vec<u8>,
    filled: usize,
    defects: Vec<Defect>,
    input_hasher: Option<Hasher>,
    output_hasher: Option<Hasher>,
    input_digest: Option<Vec<u8>>,
    output_digest: Option<Vec<u8>>,
    content: Ghost<Seq<u8>>,
    written: Ghost<Seq<u8>>,
    reread: Ghost<Seq<u8>>,
    complete: Ghost<bool>,
}

impl<'a> View for EntrySession<'a> {
    type V = SessionView;

    closed spec fn view(&self) -> SessionView {
        SessionView {
            step: self.step,
            is_dir: self.is_dir,
            verify: self.verify,
            target: names(self.target@),
            block_size: self.buf@.len(),
            content: self.content@,
            written: self.written@,
            reread: self.reread@,
            chunk: self.buf@.take(self.filled as int),
            complete: self.complete@,
            defects: self.defects@,
            size: self.size,
            progress: self.progress,
            input_digest: match self.input_digest {
                Some(digest) => Some(digest@),
                None => None,
            },
            output_digest: match self.output_digest {
                Some(digest) => Some(digest@),
                None => None,
            },
            next_read: reader_read_outcome(self.reader, self.buf@.len()),
        }
    }
}

impl<'a> EntrySession<'a> {
    /// What the fields owe each other, beyond what the driver can see.
    pub closed spec fn wf(&self) -> bool {
        &&& self@.inv()
        &&& self.filled <= self.buf@.len()
        &&& match self.step {
            Step::Ask(Request::Exists(_)) | Step::Ask(Request::CreateDirAll(_)) | Step::Ask(
                Request::CreateFile,
            ) => {
                &&& self.filled == 0
                &&& self.written@ + reader_pending(self.reader) == self.content@
            },
            Step::Ask(Request::Write) => {
                &&& self.written@ + reader_pending(self.reader) == self.content@
                &&& self.verify ==> (self.input_hasher matches Some(h) && hasher_input(h)
                    == self.written@)
            },
            Step::Ask(Request::Flush) => {
                &&& self.filled == 0
                &&& self.verify ==> (self.input_hasher matches Some(h) && hasher_input(h)
                    == self.written@)
            },
            Step::Ask(Request::Reopen) => self.filled == 0,
            Step::Ask(Request::ReadBack) => {
                &&& self.filled == 0
                &&& self.output_hasher matches Some(h) && hasher_input(h) == self.reread@
            },
            Step::Finished(_) => self.filled == 0,
        }
    }

    /// Every session that was begun and advanced keeps the invariant of its
    /// view.
    pub proof fn lemma_inv(&self)
        requires
            self.wf(),
        ensures
            self@.inv(),
    {
    }

    /// Opens entry `index` of the archive and plans its extraction.
    ///
    /// An entry that opens without a password is taken as it is. One that
    /// asks for a password gets the candidates of `opts.passwords` in order,
    /// up to the first that is accepted. The entry's declared path is then
    /// resolved below the output directory. Whatever fails is the entry's
    /// defect, and there is no session.
    pub fn begin(archive: &'a mut Archive, opts: &ExtractOpts, index: usize) -> (r: Result<
        EntrySession<'a>,
        Defect,
    >)
        requires
            opts.wf(),
        ensures
            final(archive).source() == old(archive).source(),
            match beginning(*opts, old(archive).source(), index as nat) {
                Err(defect) => r matches Err(d) && d == defect,
                Ok((bytes, target)) => {
                    &&& r matches Ok(session)
                    &&& session@.content == bytes
                    &&& session@.target == target
                    &&& session@.is_dir == entry_is_dir(old(archive).source(), index as nat)
                    &&& session@.size == entry_size(old(archive).source(), index as nat)
                },
            },
            r matches Ok(session) ==> {
                &&& session.wf()
                &&& session@.inv()
                &&& session@.verify == opts.verify_checksum
                &&& session@.block_size == opts.block_size
                &&& session@.starts(opts.overwrite)
            },
    {
        let ghost source = archive.source();
        let ghost candidates = names(opts.passwords@);
        let probe = match archive.open_entry(index) {
            Ok(_) => Ok(()),
            Err(failure) => Err(failure),
        };
        match plan_access(probe, opts.passwords.len()) {
            Err(defect) => Err(defect),
            Ok(Access::Plain) => match archive.open_entry(index) {
                Ok(reader) => Self::plan(reader, opts),
                Err(_) => Err(Defect::Unreadable),
            },
            Ok(Access::Locked) => match find_password(archive, index, &opts.passwords) {
                None => Err(Defect::WrongPasswords),
                Some(k) => {
                    proof {
                        lemma_first_accepted(source, index as nat, candidates);
                    }
                    match archive.open_entry_with(index, opts.passwords[k].as_str()) {
                        Some(reader) => Self::plan(reader, opts),
                        None => Err(Defect::Unreadable),
                    }
                },
            },
        }
    }

    /// Plans the extraction of an entry that is open.
    fn plan(reader: EntryReader<'a>, opts: &ExtractOpts) -> (r: Result<EntrySession<'a>, Defect>)
        requires
            opts.wf(),
        ensures
            match planned_target(*opts, reader_declared_path(reader)) {
                Err(defect) => r matches Err(d) && d == defect,
                Ok(target) => {
                    &&& r matches Ok(session)
                    &&& session@.target == target
                    &&& session@.content == reader_pending(reader)
                    &&& session@.is_dir == reader_marks_dir(reader)
                    &&& session@.size == reader_declared_size(reader)
                    &&& session.wf()
                    &&& session@.inv()
                    &&& session@.verify == opts.verify_checksum
                    &&& session@.block_size == opts.block_size
                    &&& session@.starts(opts.overwrite)
                },
            },
    {
        let declared = reader_enclosed_name(&reader);
        let target = match plan_target(opts, &declared) {
            Ok(target) => target,
            Err(defect) => {
                return Err(defect);
            },
        };
        let is_dir = reader_is_dir(&reader);
        let size = reader_size(&reader);
        let step = plan_first_step(is_dir, opts.overwrite, target.len() > 0);
        let buf: Vec<u8> = vec![0u8; opts.block_size];
        let session = EntrySession {
            reader,
            step,
            is_dir,
            verify: opts.verify_checksum,
            size,
            progress: 0,
            target,
            buf,
            filled: 0,
            defects: Vec::new(),
            input_hasher: None,
            output_hasher: None,
            input_digest: None,
            output_digest: None,
            content: Ghost(reader_pending(reader)),
            written: Ghost(Seq::empty()),
            reread: Ghost(Seq::empty()),
            complete: Ghost(false),
        };
        assert(session@.written + reader_pending(reader) =~= session@.content);
        assert(session@.written.is_prefix_of(session@.content));
        assert(session@.chunk =~= Seq::<u8>::empty());
        Ok(session)
    }

    /// The request that is open, or how the entry ended.
    pub fn step(&self) -> (step: Step)
        ensures
            step == self@.step,
    {
        self.step
    }

    /// Whether the entry is a directory marker.
    pub fn is_dir(&self) -> (is_dir: bool)
        ensures
            is_dir == self@.is_dir,
    {
        self.is_dir
    }

    /// The uncompressed size that the entry declares.
    pub fn size(&self) -> (size: u64)
        ensures
            size == self@.size,
    {
        self.size
    }

    /// The bytes moved in the pass that is under way: written at first, read
    /// back once the file was opened again.
    pub fn progress(&self) -> (progress: u64)
        ensures
            progress == self@.progress,
    {
        self.progress
    }

    /// The path the entry is written to.
    pub fn target(&self) -> (target: &Vec<String>)
        ensures
            names(target@) == self@.target,
    {
        &self.target
    }

    /// The directory the entry's path lies in: the path without its last
    /// component.
    pub fn parent(&self) -> (parent: Vec<String>)
        ensures
            names(parent@) == if self@.target.len() > 0 {
                self@.target.drop_last()
            } else {
                self@.target
            },
    {
        let mut parent: Vec<String> = Vec::new();
        assert(names(parent@) =~= Seq::<Seq<char>>::empty());
        if self.target.len() > 0 {
            super::path::append_components(&mut parent, &self.target, 0, self.target.len() - 1);
            assert(names(parent@) =~= self@.target.drop_last());
        } else {
            assert(names(parent@) =~= self@.target);
        }
        parent
    }

    /// The bytes of the write that is asked for; empty unless a write is.
    pub fn chunk(&self) -> (chunk: &[u8])
        requires
            self.wf(),
        ensures
            chunk@ == self@.chunk,
    {
        let chunk = slice_subrange(self.buf.as_slice(), 0, self.filled);
        assert(chunk@ =~= self.buf@.take(self.filled as int));
        chunk
    }

    /// What went wrong so far, in the order in which it happened.
    pub fn defects(&self) -> (defects: &Vec<Defect>)
        ensures
            defects@ == self@.defects,
    {
        &self.defects
    }

    /// The digest of the bytes written and the digest of the bytes read
    /// back, both in hexadecimal, once both are known.
    pub fn digests(&self) -> (r: Option<(String, String)>)
        ensures
            match (self@.input_digest, self@.output_digest) {
                (Some(input), Some(output)) => r matches Some(pair) && pair.0@
                    == super::digest::hex_string(input) && pair.1@ == super::digest::hex_string(
                    output,
                ),
                _ => r is None,
            },
    {
        match (&self.input_digest, &self.output_digest) {
            (Some(input), Some(output)) => Some(
                (digest_hex(input.as_slice()), digest_hex(output.as_slice())),
            ),
            _ => None,
        }
    }

    /// Adds to the progress counter, which stops at the largest number it
    /// can hold.
    fn count(progress: u64, more: usize) -> (sum: u64)
        ensures
            sum == clip(progress + more),
    {
        if more as u64 <= u64::MAX - progress {
            progress + more as u64
        } else {
            u64::MAX
        }
    }

    /// Records a defect.
    fn note(&mut self, defect: Defect)
        ensures
            final(self)@ == old(self)@.with_defect(defect),
            final(self).reader == old(self).reader,
            final(self).filled == old(self).filled,
            final(self).input_hasher == old(self).input_hasher,
            final(self).output_hasher == old(self).output_hasher,
            final(self).input_digest == old(self).input_digest,
            final(self).output_digest == old(self).output_digest,
    {
        self.defects.push(defect);
    }

    /// Asks the archive for the next block.
    fn pump(&mut self)
        requires
            old(self).wf(),
            old(self).step == Step::Ask(Request::CreateFile) || old(self).step == Step::Ask(
                Request::Write,
            ),
            old(self).verify ==> (old(self).input_hasher matches Some(h) && hasher_input(h)
                == old(self).written@),
        ensures
            final(self).wf(),
            old(self)@.pumped(final(self)@),
    {
        let ghost before = self@;
        let ghost pending = reader_pending(self.reader);
        match reader_read(&mut self.reader, &mut self.buf) {
            Some(n) => {
                if n == 0 {
                    self.filled = 0;
                    self.step = Step::Ask(Request::Flush);
                    proof {
                        self.complete@ = true;
                        assert(self.written@ + pending =~= self.written@);
                        assert(self@.chunk =~= Seq::<u8>::empty());
                    }
                } else {
                    let ghost bytes = self.buf@.take(n as int);
                    let slice = slice_subrange(self.buf.as_slice(), 0, n);
                    assert(slice@ =~= bytes);
                    match &mut self.input_hasher {
                        Some(hasher) => {
                            hasher_update(hasher, slice);
                        },
                        None => {},
                    }
                    proof {
                        self.written@ = self.written@ + bytes;
                    }
                    self.filled = n;
                    self.progress = Self::count(self.progress, n);
                    self.step = Step::Ask(Request::Write);
                    proof {
                        assert(bytes == pending.take(n as int));
                        assert(self.written@ + reader_pending(self.reader) =~= before.written
                            + pending) by {
                            assert(pending =~= pending.take(n as int) + pending.skip(n as int));
                        }
                        assert(self.written@.is_prefix_of(self.content@));
                        assert(self@.chunk == bytes);
                        assert(self.written@.skip(self.written@.len() - bytes.len()) =~= bytes);
                    }
                }
            },
            None => {
                self.filled = 0;
                self.note(Defect::Read);
                self.step = Step::Ask(Request::Flush);
                proof {
                    assert(self@.chunk =~= Seq::<u8>::empty());
                }
            },
        }
    }

    /// Ends the read-back and compares the digests.
    fn compare(&mut self, ok: bool)
        requires
            old(self).wf(),
            old(self).step == Step::Ask(Request::ReadBack),
        ensures
            final(self).wf(),
            final(self)@ == old(self)@.compared(ok),
    {
        if !ok {
            self.note(Defect::ReadBack);
        }
        let digest = match self.output_hasher.take() {
            Some(hasher) => hasher_finalize(hasher),
            None => Vec::new(),
        };
        let same = match &self.input_digest {
            Some(input) => same_bytes(input.as_slice(), digest.as_slice()),
            None => false,
        };
        self.output_digest = Some(digest);
        if !same {
            self.note(Defect::Checksum);
        }
        self.step = if self.defects.len() == 0 {
            Step::Finished(EntryOutcome::Extracted)
        } else {
            Step::Finished(EntryOutcome::Failed)
        };
    }

    /// Takes the driver's answer to the open request and moves on.
    ///
    /// `ok` says that the path exists, or that the operation succeeded.
    /// `data` holds the bytes of a read-back and is looked at for nothing
    /// else. A failed write or flush ends the entry as `Fatal`; every other
    /// failure is a defect, after which the entry goes on or ends as
    /// `Failed`. A finished session ignores further answers.
    pub fn advance(&mut self, ok: bool, data: &[u8])
        requires
            old(self).wf(),
        ensures
            final(self).wf(),
            final(self)@.inv(),
            old(self)@.advances(ok, data@, final(self)@),
    {
        match self.step {
            Step::Finished(_) => {},
            Step::Ask(Request::Exists(Target::Entry)) => {
                if ok {
                    self.step = Step::Finished(EntryOutcome::Skipped);
                } else if self.target.len() > 0 {
                    self.step = Step::Ask(Request::Exists(Target::Parent));
                } else {
                    self.step = Step::Ask(Request::CreateFile);
                }
            },
            Step::Ask(Request::Exists(Target::Parent)) => {
                if ok {
                    self.step = Step::Ask(Request::CreateFile);
                } else {
                    self.step = Step::Ask(Request::CreateDirAll(Target::Parent));
                }
            },
            Step::Ask(Request::CreateDirAll(Target::Parent)) => {
                if !ok {
                    self.note(Defect::CreateDir);
                }
                self.step = Step::Ask(Request::CreateFile);
            },
            Step::Ask(Request::CreateDirAll(Target::Entry)) => {
                if ok {
                    self.step = Step::Finished(EntryOutcome::Extracted);
                } else {
                    self.note(Defect::CreateDir);
                    self.step = Step::Finished(EntryOutcome::Failed);
                }
            },
            Step::Ask(Request::CreateFile) => {
                if ok {
                    if self.verify {
                        self.input_hasher = Some(hasher_new());
                    }
                    assert(self.written@ =~= Seq::<u8>::empty());
                    self.pump();
                } else {
                    self.note(Defect::CreateFile);
                    self.step = Step::Finished(EntryOutcome::Failed);
                }
            },
            Step::Ask(Request::Write) => {
                if ok {
                    self.pump();
                } else {
                    self.filled = 0;
                    self.step = Step::Finished(EntryOutcome::Fatal);
                    assert(self@.chunk =~= Seq::<u8>::empty());
                }
            },
            Step::Ask(Request::Flush) => {
                if !ok {
                    self.step = Step::Finished(EntryOutcome::Fatal);
                } else if self.verify {
                    let digest = match self.input_hasher.take() {
                        Some(hasher) => hasher_finalize(hasher),
                        None => Vec::new(),
                    };
                    self.input_digest = Some(digest);
                    self.step = Step::Ask(Request::Reopen);
                } else if self.defects.len() == 0 {
                    self.step = Step::Finished(EntryOutcome::Extracted);
                } else {
                    self.step = Step::Finished(EntryOutcome::Failed);
                }
            },
            Step::Ask(Request::Reopen) => {
                if ok {
                    self.output_hasher = Some(hasher_new());
                    self.progress = 0;
                    self.step = Step::Ask(Request::ReadBack);
                    assert(self.reread@ =~= Seq::<u8>::empty());
                } else {
                    self.note(Defect::Reopen);
                    self.step = Step::Finished(EntryOutcome::Failed);
                }
            },
            Step::Ask(Request::ReadBack) => {
                if ok && data.len() > 0 {
                    match &mut self.output_hasher {
                        Some(hasher) => {
                            hasher_update(hasher, data);
                        },
                        None => {},
                    }
                    self.progress = Self::count(self.progress, data.len());
                    proof {
                        self.reread@ = self.reread@ + data@;
                    }
                } else {
                    self.compare(ok);
                }
            },
        }
    }
}

} // verus!
