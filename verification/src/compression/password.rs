//! Which of the supplied passwords opens an encrypted entry.
//!
//! The candidates are tried in the order given and the first that the
//! archive reader accepts is taken. Nothing is remembered from one entry to
//! the next.

use vstd::prelude::*;
use vstd::string::*;

use super::archive::{accepts, Archive};
use super::path::names;

verus! {

/// The position of the first candidate that opens the entry, if any does.
pub open spec fn first_accepted(source: Seq<u8>, index: nat, candidates: Seq<Seq<char>>) -> Option<
    int,
>
    decreases candidates.len(),
{
    if candidates.len() == 0 {
        None
    } else if accepts(source, index, candidates[0]) {
        Some(0)
    } else {
        match first_accepted(source, index, candidates.drop_first()) {
            Some(k) => Some(k + 1),
            None => None,
        }
    }
}

/// `first_accepted` is the least position whose candidate is accepted.
pub proof fn lemma_first_accepted(source: Seq<u8>, index: nat, candidates: Seq<Seq<char>>)
    ensures
        match first_accepted(source, index, candidates) {
            Some(k) => {
                &&& 0 <= k < candidates.len()
                &&& accepts(source, index, candidates[k])
                &&& forall|j: int| 0 <= j < k ==> !accepts(source, index, #[trigger] candidates[j])
            },
            None => forall|j: int|
                0 <= j < candidates.len() ==> !accepts(source, index, #[trigger] candidates[j]),
        },
    decreases candidates.len(),
{
    if candidates.len() > 0 && !accepts(source, index, candidates[0]) {
        let rest = candidates.drop_first();
        lemma_first_accepted(source, index, rest);
        match first_accepted(source, index, rest) {
            Some(k) => {
                assert(rest[k] == candidates[k + 1]);
                assert forall|j: int| 0 <= j < k + 1 implies !accepts(
                    source,
                    index,
                    #[trigger] candidates[j],
                ) by {
                    if j > 0 {
                        assert(rest[j - 1] == candidates[j]);
                    }
                }
            },
            None => {
                assert forall|j: int| 0 <= j < candidates.len() implies !accepts(
                    source,
                    index,
                    #[trigger] candidates[j],
                ) by {
                    if j > 0 {
                        assert(rest[j - 1] == candidates[j]);
                    }
                }
            },
        }
    }
}

/// A position that is accepted, with none accepted before it, is the one
/// `first_accepted` names; where none is accepted it names none.
pub proof fn lemma_first_accepted_is(
    source: Seq<u8>,
    index: nat,
    candidates: Seq<Seq<char>>,
    found: Option<int>,
)
    requires
        match found {
            Some(k) => {
                &&& 0 <= k < candidates.len()
                &&& accepts(source, index, candidates[k])
                &&& forall|j: int| 0 <= j < k ==> !accepts(source, index, #[trigger] candidates[j])
            },
            None => forall|j: int|
                0 <= j < candidates.len() ==> !accepts(source, index, #[trigger] candidates[j]),
        },
    ensures
        first_accepted(source, index, candidates) == found,
{
    lemma_first_accepted(source, index, candidates);
}

/// Candidates that are rejected change nothing: with a rejected password in
/// front of an accepted one, the accepted one is chosen, and the entry opens
/// on the same bytes as with the accepted password alone.
pub proof fn lemma_rejected_candidates_are_skipped(
    source: Seq<u8>,
    index: nat,
    wrong: Seq<char>,
    correct: Seq<char>,
)
    requires
        !accepts(source, index, wrong),
        accepts(source, index, correct),
    ensures
        first_accepted(source, index, seq![wrong, correct]) == Some(1int),
        first_accepted(source, index, seq![correct]) == Some(0int),
        seq![wrong, correct][1] == seq![correct][0],
{
    lemma_first_accepted_is(source, index, seq![wrong, correct], Some(1int));
    lemma_first_accepted_is(source, index, seq![correct], Some(0int));
}

/// Where every candidate is rejected, none is chosen.
pub proof fn lemma_all_rejected(source: Seq<u8>, index: nat, candidates: Seq<Seq<char>>)
    requires
        forall|j: int|
            0 <= j < candidates.len() ==> !accepts(source, index, #[trigger] candidates[j]),
    ensures
        first_accepted(source, index, candidates) is None,
{
    lemma_first_accepted_is(source, index, candidates, None);
}

/// Tries the candidates in order on one entry and stops at the first that
/// the archive reader accepts.
pub fn find_password(archive: &mut Archive, index: usize, candidates: &Vec<String>) -> (found:
    Option<usize>)
    ensures
        final(archive).source() == old(archive).source(),
        match found {
            Some(k) => first_accepted(
                old(archive).source(),
                index as nat,
                names(candidates@),
            ) == Some(k as int),
            None => first_accepted(
                old(archive).source(),
                index as nat,
                names(candidates@),
            ) is None,
        },
{
    let ghost source = archive.source();
    let ghost all = names(candidates@);
    let mut k: usize = 0;
    while k < candidates.len()
        invariant
            k <= candidates@.len(),
            archive.source() == source,
            source == old(archive).source(),
            all == names(candidates@),
            forall|j: int| 0 <= j < k ==> !accepts(source, index as nat, #[trigger] all[j]),
        decreases candidates@.len() - k,
    {
        let password = candidates[k].as_str();
        assert(all[k as int] == password@);
        let accepted = archive.try_password(index, password);
        if accepted {
            proof {
                lemma_first_accepted_is(source, index as nat, all, Some(k as int));
            }
            return Some(k);
        }
        k = k + 1;
    }
    proof {
        lemma_first_accepted_is(source, index as nat, all, None);
    }
    None
}

} // verus!
