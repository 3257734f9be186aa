//! What the outcomes of an archive's entries add up to.

use vstd::prelude::*;

use super::archive::{archive_entry_count, archive_parses, entry_is_dir, entry_size, Archive};
use super::entry::{beginning, EntrySession};
use super::{Defect, EntryOutcome, ExtractOpts, ExtractionError};

verus! {

/// The result of an archive whose entries ended as `outcomes`: a refused
/// write stops everything; otherwise one failed entry makes the extraction
/// partial; skipped entries count as done.
pub open spec fn archive_result(outcomes: Seq<EntryOutcome>) -> Result<(), ExtractionError> {
    if outcomes.contains(EntryOutcome::Fatal) {
        Err(ExtractionError::WriteFailed)
    } else if outcomes.contains(EntryOutcome::Failed) {
        Err(ExtractionError::Partial)
    } else {
        Ok(())
    }
}

/// An archive is complete exactly when each of its entries was extracted or
/// skipped.
pub proof fn lemma_complete_archive(outcomes: Seq<EntryOutcome>)
    ensures
        archive_result(outcomes) is Ok <==> forall|i: int|
            0 <= i < outcomes.len() ==> #[trigger] outcomes[i] == EntryOutcome::Extracted
                || outcomes[i] == EntryOutcome::Skipped,
{
    if archive_result(outcomes) is Ok {
        assert forall|i: int| 0 <= i < outcomes.len() implies #[trigger] outcomes[i]
            == EntryOutcome::Extracted || outcomes[i] == EntryOutcome::Skipped by {
            assert(outcomes.contains(outcomes[i]));
        }
    }
}

/// One failed entry, and no refused write, makes the archive partial.
pub proof fn lemma_failed_entry_makes_partial(outcomes: Seq<EntryOutcome>, i: int)
    requires
        0 <= i < outcomes.len(),
        outcomes[i] == EntryOutcome::Failed,
        !outcomes.contains(EntryOutcome::Fatal),
    ensures
        archive_result(outcomes) == Err::<(), ExtractionError>(ExtractionError::Partial),
{
    assert(outcomes.contains(outcomes[i]));
}

/// The outcomes of an archive's entries, added up as they come.
pub struct ArchiveTally {
    partial: bool,
    fatal: bool,
    seen: Ghost<Seq<EntryOutcome>>,
}

impl ArchiveTally {
    /// The outcomes recorded so far, in order.
    pub closed spec fn outcomes(&self) -> Seq<EntryOutcome> {
        self.seen@
    }

    /// The flags say what the recorded outcomes hold.
    pub closed spec fn wf(&self) -> bool {
        &&& self.partial == self.seen@.contains(EntryOutcome::Failed)
        &&& self.fatal == self.seen@.contains(EntryOutcome::Fatal)
    }

    /// A tally with nothing recorded.
    pub fn new() -> (tally: ArchiveTally)
        ensures
            tally.wf(),
            tally.outcomes() == Seq::<EntryOutcome>::empty(),
    {
        ArchiveTally { partial: false, fatal: false, seen: Ghost(Seq::empty()) }
    }

    /// Records how an entry ended. Returns whether the archive goes on: it
    /// does unless a write was refused.
    pub fn record(&mut self, outcome: EntryOutcome) -> (go_on: bool)
        requires
            old(self).wf(),
        ensures
            final(self).wf(),
            final(self).outcomes() == old(self).outcomes().push(outcome),
            go_on == (outcome != EntryOutcome::Fatal),
    {
        let ghost before = self.seen@;
        proof {
            self.seen@ = self.seen@.push(outcome);
            assert(self.seen@[before.len() as int] == outcome);
            assert forall|x: EntryOutcome| self.seen@.contains(x) <==> (before.contains(x) || x
                == outcome) by {
                if before.contains(x) {
                    let i = choose|i: int| 0 <= i < before.len() && before[i] == x;
                    assert(self.seen@[i] == x);
                }
            }
        }
        match outcome {
            EntryOutcome::Failed => {
                self.partial = true;
                true
            },
            EntryOutcome::Fatal => {
                self.fatal = true;
                false
            },
            _ => true,
        }
    }

    /// Whether a write was refused.
    pub fn stopped(&self) -> (stopped: bool)
        requires
            self.wf(),
        ensures
            stopped == self.outcomes().contains(EntryOutcome::Fatal),
    {
        self.fatal
    }

    /// The archive's result for what was recorded.
    pub fn result(&self) -> (r: Result<(), ExtractionError>)
        requires
            self.wf(),
        ensures
            r == archive_result(self.outcomes()),
    {
        if self.fatal {
            Err(ExtractionError::WriteFailed)
        } else if self.partial {
            Err(ExtractionError::Partial)
        } else {
            Ok(())
        }
    }
}

/// The extraction of one archive, as its driver sees it.
pub struct ExtractionView {
    /// The bytes of the archive.
    pub source: Seq<u8>,
    /// The number of entries.
    pub count: nat,
    /// The number of entries that were taken up.
    pub next: nat,
    /// Whether an entry was taken up whose outcome is not recorded yet.
    pub awaiting: bool,
    /// How the entries ended, in their order.
    pub outcomes: Seq<EntryOutcome>,
}

impl ExtractionView {
    /// Entries are taken up in their order, one at a time, and each has its
    /// outcome recorded before the next.
    pub open spec fn inv(self) -> bool {
        &&& self.count == archive_entry_count(self.source)
        &&& self.next <= self.count
        &&& self.outcomes.len() + (if self.awaiting {
            1nat
        } else {
            0nat
        }) == self.next
    }

    /// Nothing is left to do: every entry has its outcome, or a write was
    /// refused.
    pub open spec fn done(self) -> bool {
        !self.awaiting && (self.next == self.count || self.outcomes.contains(EntryOutcome::Fatal))
    }
}

/// An extraction that ends without a refused write has an outcome for each
/// entry of the archive.
pub proof fn lemma_every_entry_is_visited(view: ExtractionView)
    requires
        view.inv(),
        view.done(),
        !(archive_result(view.outcomes) matches Err(ExtractionError::WriteFailed)),
    ensures
        view.outcomes.len() == archive_entry_count(view.source),
{
}

/// The extraction of one archive: its entries are taken up one after the
/// other, and their outcomes are added up.
pub struct Extraction {
    archive: Archive,
    opts: ExtractOpts,
    count: usize,
    next: usize,
    awaiting: bool,
    tally: ArchiveTally,
}

impl View for Extraction {
    type V = ExtractionView;

    closed spec fn view(&self) -> ExtractionView {
        ExtractionView {
            source: self.archive.source(),
            count: self.count as nat,
            next: self.next as nat,
            awaiting: self.awaiting,
            outcomes: self.tally.outcomes(),
        }
    }
}

impl Extraction {
    /// What the fields owe each other.
    pub closed spec fn wf(&self) -> bool {
        &&& self@.inv()
        &&& self.opts.wf()
        &&& self.tally.wf()
    }

    /// The options the extraction was opened with.
    pub closed spec fn opts(&self) -> ExtractOpts {
        self.opts
    }

    /// Parses the archive. Bytes that are no archive give `Incompatible`.
    pub fn open(opts: ExtractOpts, bytes: Vec<u8>) -> (r: Result<Extraction, ExtractionError>)
        requires
            opts.wf(),
        ensures
            r is Ok == archive_parses(bytes@),
            r matches Err(e) ==> e == ExtractionError::Incompatible,
            r matches Ok(job) ==> {
                &&& job.wf()
                &&& job.opts() == opts
                &&& job@ == ExtractionView {
                    source: bytes@,
                    count: archive_entry_count(bytes@),
                    next: 0,
                    awaiting: false,
                    outcomes: Seq::empty(),
                }
            },
    {
        match Archive::open(bytes) {
            Ok(archive) => {
                let count = archive.len();
                Ok(
                    Extraction {
                        archive,
                        opts,
                        count,
                        next: 0,
                        awaiting: false,
                        tally: ArchiveTally::new(),
                    },
                )
            },
            Err(e) => Err(e),
        }
    }

    /// The number of entries.
    pub fn count(&self) -> (count: usize)
        ensures
            count == self@.count,
    {
        self.count
    }

    /// The number of entries that were taken up: the index of the next.
    pub fn position(&self) -> (next: usize)
        ensures
            next == self@.next,
    {
        self.next
    }

    /// Whether nothing is left to do.
    pub fn is_done(&self) -> (done: bool)
        requires
            self.wf(),
        ensures
            done == self@.done(),
    {
        !self.awaiting && (self.next == self.count || self.tally.stopped())
    }

    /// Takes up the next entry. Where it cannot be opened or has no safe
    /// place to go, it is counted as failed and its defect is handed out;
    /// otherwise its session is, and its outcome is to be recorded once the
    /// session is finished.
    pub fn begin_next<'a>(&'a mut self) -> (r: Result<EntrySession<'a>, Defect>)
        requires
            old(self).wf(),
            !old(self)@.awaiting,
            old(self)@.next < old(self)@.count,
        ensures
            final(self).wf(),
            final(self).opts() == old(self).opts(),
            final(self)@ == (ExtractionView {
                next: old(self)@.next + 1,
                awaiting: r is Ok,
                outcomes: if r is Ok {
                    old(self)@.outcomes
                } else {
                    old(self)@.outcomes.push(EntryOutcome::Failed)
                },
                ..old(self)@
            }),
            match beginning(old(self).opts(), old(self)@.source, old(self)@.next) {
                Err(defect) => r matches Err(d) && d == defect,
                Ok((bytes, target)) => {
                    &&& r matches Ok(session)
                    &&& session@.content == bytes
                    &&& session@.target == target
                    &&& session@.is_dir == entry_is_dir(old(self)@.source, old(self)@.next)
                    &&& session@.size == entry_size(old(self)@.source, old(self)@.next)
                },
            },
            r matches Ok(session) ==> {
                &&& session.wf()
                &&& session@.inv()
                &&& session@.starts(old(self).opts().overwrite)
                &&& session@.verify == old(self).opts().verify_checksum
                &&& session@.block_size == old(self).opts().block_size
            },
    {
        let index = self.next;
        self.next = index + 1;
        match EntrySession::begin(&mut self.archive, &self.opts, index) {
            Ok(session) => {
                self.awaiting = true;
                Ok(session)
            },
            Err(defect) => {
                self.tally.record(EntryOutcome::Failed);
                Err(defect)
            },
        }
    }

    /// Records how the entry that was taken up ended.
    pub fn record(&mut self, outcome: EntryOutcome)
        requires
            old(self).wf(),
            old(self)@.awaiting,
        ensures
            final(self).wf(),
            final(self).opts() == old(self).opts(),
            final(self)@ == (ExtractionView {
                awaiting: false,
                outcomes: old(self)@.outcomes.push(outcome),
                ..old(self)@
            }),
    {
        self.tally.record(outcome);
        self.awaiting = false;
    }

    /// The result of the extraction, for the entries that have their
    /// outcome.
    pub fn finish(&self) -> (r: Result<(), ExtractionError>)
        requires
            self.wf(),
        ensures
            r == archive_result(self@.outcomes),
    {
        self.tally.result()
    }
}

} // verus!
